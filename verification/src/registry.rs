//! The rendezvous registry: publish, lookup, renew and expiry.
//!
//! The registry owns two tables under one critical section: identifiers to
//! object entries, and keep-alive keys to lease entries. `publish` creates a
//! pair of bindings, `renew` re-arms a lease's expiry, and `expire` removes
//! the pair when an armed expiry fires. Expiries are modelled by timer
//! numbers drawn from a counter that never repeats: arming hands out the
//! next number, cancelling is simply arming a newer one, and a firing only
//! takes effect while its number is still the armed one. The caller runs
//! the actual clocks; which firings may delete is decided, and proved,
//! here.

use vstd::prelude::*;

use crate::assoc::{
    assoc_map, distinct_keys, lemma_assoc_map_contains, lemma_assoc_map_dom_len,
    lemma_assoc_map_index, lemma_assoc_map_push, lemma_assoc_map_remove,
};
use crate::backend::{ErrorResponse, RegisteredObjectData};
use crate::idgen::IdGenerator;
use crate::object::ObjectEntry;
use vstd::string::StringExecFns;

verus! {

/// Relies on `uuid::Uuid::new_v4` and its display form: a fresh random
/// UUID, rendered as the 36-character hyphenated string.
#[verifier::external_body]
fn new_keep_alive_key() -> (r: String)
    ensures
        r@.len() == 36,
{
    uuid::Uuid::new_v4().to_string()
}

#[derive(Debug, PartialEq, Eq, Structural)]
/// The two lookup-style failures the registry can report.
pub enum ServerError {
    /// Lookup of an identifier that is not registered (or has expired).
    UnknownObject,
    /// Renewal with a keep-alive key that is not registered.
    UnknownKeepAliveKey,
}

#[derive(Debug, PartialEq, Eq, Structural)]
/// Failure of `publish` itself.
pub enum PublishError {
    /// No fresh identifier and key pair was found within the attempt cap.
    AttemptsExhausted,
}

impl ServerError {
    /// The HTTP status both failures map to on the wire.
    pub fn status_code(&self) -> (r: u16)
        ensures
            r == 404,
    {
        404
    }

    /// The stable wire error body for this failure: a short code a client
    /// can branch on, and a human-readable message.
    pub fn error_response(&self) -> (r: ErrorResponse)
        ensures
            self is UnknownObject ==> r.code@ == "0001@NKBE"@ && r.message@
                == "The requested object is not available"@,
            self is UnknownKeepAliveKey ==> r.code@ == "0002@NKBE"@ && r.message@
                == "The given keep alive key doesn't match for any registered object"@,
    {
        match self {
            ServerError::UnknownObject => ErrorResponse::new(
                String::from_str("0001@NKBE"),
                String::from_str("The requested object is not available"),
            ),
            ServerError::UnknownKeepAliveKey => ErrorResponse::new(
                String::from_str("0002@NKBE"),
                String::from_str("The given keep alive key doesn't match for any registered object"),
            ),
        }
    }
}

/// A lease: the identifier it protects and the armed expiry timer.
pub struct KeepAliveEntry {
    /// The identifier of the object this lease protects.
    pub object_id: String,
    /// The timer number of the currently armed expiry. A firing whose
    /// number no longer matches is stale and must not delete.
    pub timer: u64,
}

/// What a successful `publish` hands back.
pub struct PublishReceipt {
    /// The identifier and keep-alive key, as sent to the client.
    pub registration: RegisteredObjectData,
    /// The timer number of the expiry armed for this registration; the
    /// caller schedules a firing under this number.
    pub armed_timer: u64,
}

/// What a successful `renew` hands back.
pub struct RenewReceipt {
    /// The timer number that was armed before the renewal; any firing under
    /// it is now stale.
    pub cancelled_timer: u64,
    /// The freshly armed timer number; the caller schedules a new firing
    /// under it.
    pub armed_timer: u64,
}

/// The cap on identifier drawing attempts in one `publish`: with three
/// independently drawn words the identifier space dwarfs any live table, so
/// exhausting the cap means the word lists are pathological.
pub const MAX_PUBLISH_ATTEMPTS: usize = 16;

/// Some pair of the table carries the key `k`.
pub open spec fn table_has_key<V>(s: Seq<(String, V)>, k: Seq<char>) -> bool {
    exists|j: int| 0 <= j < s.len() && #[trigger] s[j].0@ == k
}

/// Some lease of the table protects the identifier `k`.
pub open spec fn lease_protects(l: Seq<(String, KeepAliveEntry)>, k: Seq<char>) -> bool {
    exists|i: int| 0 <= i < l.len() && #[trigger] l[i].1.object_id@ == k
}

/// Pushing a fresh identifier–entry pair, and a fresh lease protecting that
/// identifier under the counter's timer, keeps the registry invariant.
proof fn lemma_insert_preserves_wf(
    pre: ObjectRegistry,
    post: ObjectRegistry,
    idpair: (String, ObjectEntry),
    leasepair: (String, KeepAliveEntry),
)
    requires
        pre.wf(),
        post.objects@ == pre.objects@.push(idpair),
        post.keep_alive_entries@ == pre.keep_alive_entries@.push(leasepair),
        leasepair.1.object_id@ == idpair.0@,
        leasepair.1.timer == pre.next_timer,
        pre.next_timer < u64::MAX,
        post.next_timer == pre.next_timer + 1,
        post.generator == pre.generator,
        !pre.objects_map().dom().contains(idpair.0@),
        !pre.leases_map().dom().contains(leasepair.0@),
    ensures
        post.wf(),
{
    let o0 = pre.objects@;
    let l0 = pre.keep_alive_entries@;
    let o1 = post.objects@;
    let l1 = post.keep_alive_entries@;
    lemma_assoc_map_contains(o0, idpair.0@);
    lemma_assoc_map_contains(l0, leasepair.0@);
    assert(forall|x: int| 0 <= x < o0.len() ==> #[trigger] o0[x].0@ != idpair.0@);
    assert(forall|x: int| 0 <= x < l0.len() ==> #[trigger] l0[x].0@ != leasepair.0@);
    // No older lease protects the new identifier: older leases protect
    // older identifiers, all of which differ from the new one.
    assert forall|x: int| 0 <= x < l0.len() implies #[trigger] l0[x].1.object_id@
        != idpair.0@ by {
        assert(table_has_key(o0, l0[x].1.object_id@));
        let j = choose|j: int| 0 <= j < o0.len() && #[trigger] o0[j].0@ == l0[x].1.object_id@;
        assert(o0[j].0@ != idpair.0@);
    }
    assert forall|i: int| 0 <= i < l1.len() implies table_has_key(
        o1,
        #[trigger] l1[i].1.object_id@,
    ) by {
        if i < l0.len() {
            assert(l1[i] == l0[i]);
            assert(table_has_key(o0, l0[i].1.object_id@));
            let j = choose|j: int| 0 <= j < o0.len() && #[trigger] o0[j].0@ == l0[i].1.object_id@;
            assert(o1[j].0@ == l1[i].1.object_id@);
        } else {
            assert(l1[i] == leasepair);
            assert(o1[o1.len() - 1].0@ == l1[i].1.object_id@);
        }
    }
    assert forall|j: int| 0 <= j < o1.len() implies lease_protects(l1, #[trigger] o1[j].0@) by {
        if j < o0.len() {
            assert(o1[j] == o0[j]);
            assert(lease_protects(l0, o0[j].0@));
            let i = choose|i: int| 0 <= i < l0.len() && #[trigger] l0[i].1.object_id@ == o0[j].0@;
            assert(l1[i].1.object_id@ == o1[j].0@);
        } else {
            assert(o1[j] == idpair);
            assert(l1[l1.len() - 1].1.object_id@ == o1[j].0@);
        }
    }
    assert(distinct_keys(o1));
    assert(distinct_keys(l1));
    assert(post.wf());
}

/// Replacing the lease at index `i` with one that protects the same
/// identifier under the counter's timer keeps the registry invariant.
proof fn lemma_renew_preserves_wf(
    pre: ObjectRegistry,
    post: ObjectRegistry,
    i: int,
    leasepair: (String, KeepAliveEntry),
)
    requires
        pre.wf(),
        0 <= i < pre.keep_alive_entries@.len(),
        post.objects@ == pre.objects@,
        post.keep_alive_entries@ == pre.keep_alive_entries@.remove(i).push(leasepair),
        leasepair.0@ == pre.keep_alive_entries@[i].0@,
        leasepair.1.object_id@ == pre.keep_alive_entries@[i].1.object_id@,
        leasepair.1.timer == pre.next_timer,
        pre.next_timer < u64::MAX,
        post.next_timer == pre.next_timer + 1,
        post.generator == pre.generator,
    ensures
        post.wf(),
{
    let o = pre.objects@;
    let l0 = pre.keep_alive_entries@;
    let l1 = post.keep_alive_entries@;
    l0.remove_ensures(i);
    assert(l1.len() == l0.len());
    // Where each surviving lease sat in the old table.
    assert forall|x: int| 0 <= x < l1.len() - 1 implies #[trigger] l1[x] == l0[
        if x < i {
            x
        } else {
            x + 1
        }
    ] by {
        assert(l1[x] == l0.remove(i)[x]);
    }
    assert(l1[l1.len() - 1] == leasepair);
    assert(distinct_keys(l1)) by {
        assert forall|x: int, y: int| 0 <= x < y < l1.len() implies l1[x].0@ != l1[y].0@ by {
            if y < l1.len() - 1 {
                let x0 = if x < i { x } else { x + 1 };
                let y0 = if y < i { y } else { y + 1 };
                assert(l0[x0].0@ != l0[y0].0@);
            } else {
                let x0 = if x < i { x } else { x + 1 };
                assert(x0 != i);
                assert(l0[x0].0@ != l0[i].0@);
            }
        }
    }
    assert forall|x: int| 0 <= x < l1.len() implies table_has_key(
        o,
        #[trigger] l1[x].1.object_id@,
    ) by {
        if x < l1.len() - 1 {
            let x0 = if x < i { x } else { x + 1 };
            assert(table_has_key(o, l0[x0].1.object_id@));
        } else {
            assert(table_has_key(o, l0[i].1.object_id@));
        }
    }
    assert forall|j: int| 0 <= j < o.len() implies lease_protects(l1, #[trigger] o[j].0@) by {
        assert(lease_protects(l0, o[j].0@));
        let x0 = choose|x0: int| 0 <= x0 < l0.len() && #[trigger] l0[x0].1.object_id@ == o[j].0@;
        if x0 == i {
            assert(l1[l1.len() - 1].1.object_id@ == o[j].0@);
        } else if x0 < i {
            assert(l1[x0].1.object_id@ == o[j].0@);
        } else {
            assert(l1[x0 - 1].1.object_id@ == o[j].0@);
        }
    }
    assert forall|x: int, y: int| 0 <= x < y < l1.len() implies l1[x].1.object_id@ != l1[y].1.object_id@ by {
        if y < l1.len() - 1 {
            let x0 = if x < i { x } else { x + 1 };
            let y0 = if y < i { y } else { y + 1 };
            assert(l0[x0].1.object_id@ != l0[y0].1.object_id@);
        } else {
            let x0 = if x < i { x } else { x + 1 };
            assert(x0 != i);
            assert(l0[x0].1.object_id@ != l0[i].1.object_id@);
        }
    }
    assert forall|x: int, y: int| 0 <= x < y < l1.len() implies l1[x].1.timer != l1[y].1.timer by {
        if y < l1.len() - 1 {
            let x0 = if x < i { x } else { x + 1 };
            let y0 = if y < i { y } else { y + 1 };
            assert(l0[x0].1.timer != l0[y0].1.timer);
        } else {
            let x0 = if x < i { x } else { x + 1 };
            assert(l0[x0].1.timer < pre.next_timer);
        }
    }
    assert(post.wf());
}

/// Removing a lease together with the object it protects keeps the
/// registry invariant.
proof fn lemma_expire_preserves_wf(pre: ObjectRegistry, post: ObjectRegistry, i: int, j: int)
    requires
        pre.wf(),
        0 <= i < pre.keep_alive_entries@.len(),
        0 <= j < pre.objects@.len(),
        pre.objects@[j].0@ == pre.keep_alive_entries@[i].1.object_id@,
        post.objects@ == pre.objects@.remove(j),
        post.keep_alive_entries@ == pre.keep_alive_entries@.remove(i),
        post.next_timer == pre.next_timer,
        post.generator == pre.generator,
    ensures
        post.wf(),
{
    let o0 = pre.objects@;
    let l0 = pre.keep_alive_entries@;
    let o1 = post.objects@;
    let l1 = post.keep_alive_entries@;
    o0.remove_ensures(j);
    l0.remove_ensures(i);
    lemma_assoc_map_remove(o0, j);
    lemma_assoc_map_remove(l0, i);
    assert forall|x: int| 0 <= x < l1.len() implies #[trigger] l1[x] == l0[
        if x < i {
            x
        } else {
            x + 1
        }
    ] by {}
    assert forall|y: int| 0 <= y < o1.len() implies #[trigger] o1[y] == o0[
        if y < j {
            y
        } else {
            y + 1
        }
    ] by {}
    // Each surviving lease still protects a surviving object: the object it
    // protected cannot be the removed one, since only the removed lease
    // protected that.
    assert forall|x: int| 0 <= x < l1.len() implies table_has_key(
        o1,
        #[trigger] l1[x].1.object_id@,
    ) by {
        let x0 = if x < i {
            x
        } else {
            x + 1
        };
        assert(table_has_key(o0, l0[x0].1.object_id@));
        let j0 = choose|j0: int| 0 <= j0 < o0.len() && #[trigger] o0[j0].0@ == l0[x0].1.object_id@;
        assert(x0 != i);
        assert(l0[x0].1.object_id@ != l0[i].1.object_id@);
        assert(o0[j0].0@ != o0[j].0@);
        assert(j0 != j);
        if j0 < j {
            assert(o1[j0].0@ == l1[x].1.object_id@);
        } else {
            assert(o1[j0 - 1].0@ == l1[x].1.object_id@);
        }
    }
    // Each surviving object is still protected: its lease cannot be the
    // removed one, since that one protected the removed object.
    assert forall|y: int| 0 <= y < o1.len() implies lease_protects(l1, #[trigger] o1[y].0@) by {
        let y0 = if y < j {
            y
        } else {
            y + 1
        };
        assert(lease_protects(l0, o0[y0].0@));
        let x0 = choose|x0: int| 0 <= x0 < l0.len() && #[trigger] l0[x0].1.object_id@ == o0[y0].0@;
        assert(y0 != j);
        assert(o0[y0].0@ != o0[j].0@);
        assert(l0[x0].1.object_id@ != l0[i].1.object_id@);
        assert(x0 != i);
        if x0 < i {
            assert(l1[x0].1.object_id@ == o1[y].0@);
        } else {
            assert(l1[x0 - 1].1.object_id@ == o1[y].0@);
        }
    }
    assert(post.wf());
}

/// Bijection: in a well-formed registry the live identifiers and the live
/// keep-alive keys are in one-to-one correspondence — the two tables have
/// the same size, every lease protects a live identifier, no two leases
/// protect the same one, and every live identifier is protected by a lease.
/// This holds at every quiescent point, since every operation both requires
/// and re-establishes well-formedness.
pub proof fn lemma_bijection(r: ObjectRegistry)
    requires
        r.wf(),
    ensures
        r.objects_map().dom().finite(),
        r.leases_map().dom().finite(),
        r.objects_map().dom().len() == r.leases_map().dom().len(),
        forall|k: Seq<char>| #[trigger]
            r.leases_map().dom().contains(k) ==> r.objects_map().dom().contains(
                r.leases_map()[k].object_id@,
            ),
        forall|k1: Seq<char>, k2: Seq<char>|
            r.leases_map().dom().contains(k1) && r.leases_map().dom().contains(k2)
                && #[trigger] r.leases_map()[k1].object_id@ == #[trigger] r.leases_map()[k2].object_id@
                ==> k1 == k2,
        forall|id: Seq<char>| #[trigger]
            r.objects_map().dom().contains(id) ==> exists|k: Seq<char>|
                r.leases_map().dom().contains(k) && #[trigger] r.leases_map()[k].object_id@ == id,
{
    let o = r.objects@;
    let l = r.keep_alive_entries@;
    lemma_assoc_map_dom_len(o);
    lemma_assoc_map_dom_len(l);
    assert forall|k: Seq<char>| #[trigger]
        r.leases_map().dom().contains(k) implies r.objects_map().dom().contains(
        r.leases_map()[k].object_id@,
    ) by {
        lemma_assoc_map_contains(l, k);
        let i = choose|i: int| 0 <= i < l.len() && #[trigger] l[i].0@ == k;
        lemma_assoc_map_index(l, i);
        assert(table_has_key(o, l[i].1.object_id@));
        let j = choose|j: int| 0 <= j < o.len() && #[trigger] o[j].0@ == l[i].1.object_id@;
        lemma_assoc_map_index(o, j);
    }
    assert forall|k1: Seq<char>, k2: Seq<char>|
        r.leases_map().dom().contains(k1) && r.leases_map().dom().contains(k2) && (#[trigger] r.leases_map()[k1].object_id@) == (#[trigger] r.leases_map()[k2].object_id@) implies k1 == k2 by {
        lemma_assoc_map_contains(l, k1);
        lemma_assoc_map_contains(l, k2);
        let i1 = choose|i: int| 0 <= i < l.len() && #[trigger] l[i].0@ == k1;
        let i2 = choose|i: int| 0 <= i < l.len() && #[trigger] l[i].0@ == k2;
        lemma_assoc_map_index(l, i1);
        lemma_assoc_map_index(l, i2);
        if i1 != i2 {
            assert(l[i1].1.object_id@ != l[i2].1.object_id@);
        }
    }
    assert forall|id: Seq<char>| #[trigger]
        r.objects_map().dom().contains(id) implies exists|k: Seq<char>|
        r.leases_map().dom().contains(k) && #[trigger] r.leases_map()[k].object_id@ == id by {
        lemma_assoc_map_contains(o, id);
        let j = choose|j: int| 0 <= j < o.len() && #[trigger] o[j].0@ == id;
        assert(lease_protects(l, o[j].0@));
        let i = choose|i: int| 0 <= i < l.len() && #[trigger] l[i].1.object_id@ == o[j].0@;
        lemma_assoc_map_index(l, i);
        assert(r.leases_map().dom().contains(l[i].0@) && r.leases_map()[l[i].0@].object_id@ == id);
    }
}

/// In a well-formed registry every armed timer lies below the counter, and
/// no two leases share one. So a timer number the counter has not yet
/// handed out is armed for no lease, and arming — which hands out the
/// counter's value — can never race an already-armed expiry.
pub proof fn lemma_armed_timers_below_counter(r: ObjectRegistry)
    requires
        r.wf(),
    ensures
        forall|k: Seq<char>| #[trigger]
            r.leases_map().dom().contains(k) ==> r.leases_map()[k].timer < r.spec_next_timer(),
        forall|k1: Seq<char>, k2: Seq<char>|
            r.leases_map().dom().contains(k1) && r.leases_map().dom().contains(k2)
                && (#[trigger] r.leases_map()[k1].timer) == (#[trigger] r.leases_map()[k2].timer)
                ==> k1 == k2,
{
    let l = r.keep_alive_entries@;
    assert forall|k: Seq<char>| #[trigger]
        r.leases_map().dom().contains(k) implies r.leases_map()[k].timer
        < r.spec_next_timer() by {
        lemma_assoc_map_contains(l, k);
        let i = choose|i: int| 0 <= i < l.len() && #[trigger] l[i].0@ == k;
        lemma_assoc_map_index(l, i);
    }
    assert forall|k1: Seq<char>, k2: Seq<char>|
        r.leases_map().dom().contains(k1) && r.leases_map().dom().contains(k2) && (#[trigger] r.leases_map()[k1].timer) == (#[trigger] r.leases_map()[k2].timer) implies k1 == k2 by {
        lemma_assoc_map_contains(l, k1);
        lemma_assoc_map_contains(l, k2);
        let i1 = choose|i: int| 0 <= i < l.len() && #[trigger] l[i].0@ == k1;
        let i2 = choose|i: int| 0 <= i < l.len() && #[trigger] l[i].0@ == k2;
        lemma_assoc_map_index(l, i1);
        lemma_assoc_map_index(l, i2);
        if i1 != i2 {
            assert(l[i1].1.timer != l[i2].1.timer);
        }
    }
}

/// What a lookup returns, as a function of the registry and the
/// identifier: the stored entry when the identifier is live, the
/// `UnknownObject` failure otherwise. `lookup` returns exactly this, and
/// takes the registry by shared reference, so repeating a failed lookup can
/// only fail the same way.
pub open spec fn spec_lookup(r: ObjectRegistry, id: Seq<char>) -> Result<ObjectEntry, ServerError> {
    if r.objects_map().dom().contains(id) {
        Ok(r.objects_map()[id])
    } else {
        Err(ServerError::UnknownObject)
    }
}

/// One `publish` success, as a relation between the registry before and
/// after: both parts of the receipt were fresh, and the tables gained
/// exactly the new pair, protected by a freshly armed timer.
pub open spec fn publish_step(
    pre: ObjectRegistry,
    post: ObjectRegistry,
    receipt: PublishReceipt,
    entry: ObjectEntry,
) -> bool {
    &&& !pre.objects_map().dom().contains(receipt.registration.id@)
    &&& !pre.leases_map().dom().contains(receipt.registration.keep_alive_key@)
    &&& post.objects_map() == pre.objects_map().insert(receipt.registration.id@, entry)
    &&& post.leases_map() == pre.leases_map().insert(
        receipt.registration.keep_alive_key@,
        KeepAliveEntry { object_id: receipt.registration.id, timer: receipt.armed_timer },
    )
    &&& receipt.armed_timer == pre.spec_next_timer()
    &&& post.spec_next_timer() == pre.spec_next_timer() + 1
    &&& post.spec_generator() == pre.spec_generator()
}

/// One `renew` success: the lease under `key` keeps its identifier, its old
/// timer is cancelled and a fresh one armed; nothing else moves.
pub open spec fn renew_step(
    pre: ObjectRegistry,
    post: ObjectRegistry,
    key: Seq<char>,
    receipt: RenewReceipt,
) -> bool {
    &&& pre.leases_map().dom().contains(key)
    &&& receipt.cancelled_timer == pre.leases_map()[key].timer
    &&& receipt.armed_timer == pre.spec_next_timer()
    &&& post.objects_map() == pre.objects_map()
    &&& post.leases_map() == pre.leases_map().insert(
        key,
        KeepAliveEntry {
            object_id: pre.leases_map()[key].object_id,
            timer: receipt.armed_timer,
        },
    )
    &&& post.spec_next_timer() == pre.spec_next_timer() + 1
    &&& post.spec_generator() == pre.spec_generator()
}

/// One `renew` call, success or failure: a live key's lease keeps its
/// identifier and gets a fresh timer (see [`renew_step`]); a key that is
/// not live fails with `UnknownKeepAliveKey` and leaves the registry —
/// tables and armed timers alike — exactly as it was.
pub open spec fn renew_outcome(
    pre: ObjectRegistry,
    post: ObjectRegistry,
    key: Seq<char>,
    r: Result<RenewReceipt, ServerError>,
) -> bool {
    match r {
        Ok(receipt) => renew_step(pre, post, key, receipt),
        Err(e) => {
            &&& !pre.leases_map().dom().contains(key)
            &&& e == ServerError::UnknownKeepAliveKey
            &&& post == pre
        },
    }
}

/// One expiry firing: it deletes exactly its own pair, and only while its
/// timer number is still the armed one; a stale or unknown firing moves
/// nothing.
pub open spec fn expire_step(
    pre: ObjectRegistry,
    post: ObjectRegistry,
    key: Seq<char>,
    timer: u64,
    fired: bool,
) -> bool {
    &&& fired == (pre.leases_map().dom().contains(key) && pre.leases_map()[key].timer == timer)
    &&& if fired {
        &&& post.objects_map() == pre.objects_map().remove(pre.leases_map()[key].object_id@)
        &&& post.leases_map() == pre.leases_map().remove(key)
        &&& post.spec_next_timer() == pre.spec_next_timer()
        &&& post.spec_generator() == pre.spec_generator()
    } else {
        post == pre
    }
}

/// The registry's state: the two tables, the identifier generator, and the
/// timer counter. All operations on one registry are meant to run under a
/// single exclusive critical section.
pub struct ObjectRegistry {
    objects: Vec<(String, ObjectEntry)>,
    keep_alive_entries: Vec<(String, KeepAliveEntry)>,
    generator: IdGenerator,
    next_timer: u64,
}

impl ObjectRegistry {
    /// The identifier table, as a map.
    pub closed spec fn objects_map(self) -> Map<Seq<char>, ObjectEntry> {
        assoc_map(self.objects@)
    }

    /// The lease table, as a map.
    pub closed spec fn leases_map(self) -> Map<Seq<char>, KeepAliveEntry> {
        assoc_map(self.keep_alive_entries@)
    }

    /// The timer number the next arming will use.
    pub closed spec fn spec_next_timer(self) -> u64 {
        self.next_timer
    }

    /// The identifier generator the registry was built with.
    pub closed spec fn spec_generator(self) -> IdGenerator {
        self.generator
    }

    /// The registry's invariant: both tables have distinct keys; live
    /// identifiers and live leases are in one-to-one correspondence; every
    /// armed timer is below the counter and no two leases share one; and
    /// the generator can generate.
    pub closed spec fn wf(self) -> bool {
        let o = self.objects@;
        let l = self.keep_alive_entries@;
        &&& distinct_keys(o)
        &&& distinct_keys(l)
        &&& o.len() == l.len()
        &&& (forall|i: int| 0 <= i < l.len() ==> table_has_key(o, #[trigger] l[i].1.object_id@))
        &&& (forall|j: int| 0 <= j < o.len() ==> lease_protects(l, #[trigger] o[j].0@))
        &&& (forall|i: int, j: int|
            0 <= i < j < l.len() ==> l[i].1.object_id@ != l[j].1.object_id@)
        &&& (forall|i: int| 0 <= i < l.len() ==> #[trigger] l[i].1.timer < self.next_timer)
        &&& (forall|i: int, j: int| 0 <= i < j < l.len() ==> l[i].1.timer != l[j].1.timer)
        &&& self.generator.wf()
    }

    /// Make an empty registry around the given generator.
    pub fn new(generator: IdGenerator) -> (r: ObjectRegistry)
        requires
            generator.wf(),
        ensures
            r.wf(),
            r.objects_map() == Map::<Seq<char>, ObjectEntry>::empty(),
            r.leases_map() == Map::<Seq<char>, KeepAliveEntry>::empty(),
            r.spec_next_timer() == 0,
            r.spec_generator() == generator,
    {
        ObjectRegistry {
            objects: Vec::new(),
            keep_alive_entries: Vec::new(),
            generator,
            next_timer: 0,
        }
    }

    /// The index of the identifier in the object table, if it is there.
    fn find_object_index(&self, id: &String) -> (r: Option<usize>)
        ensures
            match r {
                Some(i) => i < self.objects@.len() && self.objects@[i as int].0@ == id@,
                None => forall|i: int| 0 <= i < self.objects@.len() ==> self.objects@[i].0@ != id@,
            },
    {
        let n = self.objects.len();
        for i in 0..n
            invariant
                n == self.objects@.len(),
                forall|x: int| 0 <= x < i ==> self.objects@[x].0@ != id@,
        {
            if self.objects[i].0 == *id {
                return Some(i);
            }
        }
        None
    }

    /// The index of the keep-alive key in the lease table, if it is there.
    fn find_lease_index(&self, keep_alive_key: &String) -> (r: Option<usize>)
        ensures
            match r {
                Some(i) => i < self.keep_alive_entries@.len()
                    && self.keep_alive_entries@[i as int].0@ == keep_alive_key@,
                None => forall|i: int|
                    0 <= i < self.keep_alive_entries@.len() ==> self.keep_alive_entries@[i].0@
                        != keep_alive_key@,
            },
    {
        let n = self.keep_alive_entries.len();
        for i in 0..n
            invariant
                n == self.keep_alive_entries@.len(),
                forall|x: int| 0 <= x < i ==> self.keep_alive_entries@[x].0@ != keep_alive_key@,
        {
            if self.keep_alive_entries[i].0 == *keep_alive_key {
                return Some(i);
            }
        }
        None
    }

    /// Whether the identifier is live.
    fn contains_object_key(&self, id: &String) -> (r: bool)
        ensures
            r == self.objects_map().dom().contains(id@),
    {
        proof {
            lemma_assoc_map_contains(self.objects@, id@);
        }
        self.find_object_index(id).is_some()
    }

    /// Whether the keep-alive key is live.
    fn contains_lease_key(&self, keep_alive_key: &String) -> (r: bool)
        ensures
            r == self.leases_map().dom().contains(keep_alive_key@),
    {
        proof {
            lemma_assoc_map_contains(self.keep_alive_entries@, keep_alive_key@);
        }
        self.find_lease_index(keep_alive_key).is_some()
    }

    /// Insert a registration whose identifier and keep-alive key are known
    /// to be fresh: bind the identifier to the entry, bind the key to a
    /// lease protecting it, and arm an expiry timer. This is the
    /// deterministic core of `publish`; it always succeeds.
    pub fn insert_registration(&mut self, id: String, keep_alive_key: String, entry: ObjectEntry) -> (armed_timer: u64)
        requires
            old(self).wf(),
            !old(self).objects_map().dom().contains(id@),
            !old(self).leases_map().dom().contains(keep_alive_key@),
            old(self).spec_next_timer() < u64::MAX,
        ensures
            final(self).wf(),
            publish_step(
                *old(self),
                *final(self),
                PublishReceipt {
                    registration: RegisteredObjectData { id, keep_alive_key },
                    armed_timer,
                },
                entry,
            ),
    {
        proof {
            lemma_assoc_map_contains(self.objects@, id@);
            lemma_assoc_map_contains(self.keep_alive_entries@, keep_alive_key@);
        }
        let armed_timer = self.next_timer;
        self.next_timer = self.next_timer + 1;
        let lease = KeepAliveEntry { object_id: id.clone(), timer: armed_timer };
        self.objects.push((id, entry));
        self.keep_alive_entries.push((keep_alive_key, lease));
        proof {
            lemma_insert_preserves_wf(
                *old(self),
                *self,
                self.objects@.last(),
                self.keep_alive_entries@.last(),
            );
            lemma_assoc_map_push(old(self).objects@, self.objects@.last().0, self.objects@.last().1);
            lemma_assoc_map_push(
                old(self).keep_alive_entries@,
                self.keep_alive_entries@.last().0,
                self.keep_alive_entries@.last().1,
            );
        }
        armed_timer
    }

    /// Send a new object to be registered: draw candidate identifiers until
    /// one is free, mint a fresh keep-alive key, insert both bindings and
    /// arm an expiry. The receipt carries what the client needs to retrieve
    /// and renew the object; the caller schedules a firing under the
    /// receipt's timer number. Fails only when no fresh identifier and key
    /// pair was found within [`MAX_PUBLISH_ATTEMPTS`] draws.
    pub fn publish(&mut self, entry: ObjectEntry) -> (r: Result<PublishReceipt, PublishError>)
        requires
            old(self).wf(),
            old(self).spec_next_timer() < u64::MAX,
        ensures
            final(self).wf(),
            match r {
                Ok(receipt) => {
                    &&& publish_step(*old(self), *final(self), receipt, entry)
                    &&& old(self).spec_generator().is_candidate(receipt.registration.id@)
                    &&& receipt.registration.keep_alive_key@.len() == 36
                },
                Err(e) => e == PublishError::AttemptsExhausted && *final(self) == *old(self),
            },
            old(self).objects_map().dom().len() == 0 ==> r is Ok,
    {
        let mut attempt: usize = 0;
        while attempt < MAX_PUBLISH_ATTEMPTS
            invariant
                *self == *old(self),
                old(self).wf(),
                old(self).spec_next_timer() < u64::MAX,
                attempt > 0 ==> old(self).objects_map().dom().len() > 0,
            decreases MAX_PUBLISH_ATTEMPTS - attempt,
        {
            let id = self.generator.generate();
            let keep_alive_key = new_keep_alive_key();
            let id_taken = self.contains_object_key(&id);
            let key_taken = self.contains_lease_key(&keep_alive_key);
            if !id_taken && !key_taken {
                let armed_timer = self.insert_registration(
                    id.clone(),
                    keep_alive_key.clone(),
                    entry,
                );
                return Ok(
                    PublishReceipt {
                        registration: RegisteredObjectData { id, keep_alive_key },
                        armed_timer,
                    },
                );
            }
            // A draw collided, so some binding was live: the registry was
            // not empty. (A taken key implies a lease, and the tables are
            // equally long.)
            proof {
                lemma_assoc_map_dom_len(self.objects@);
                if id_taken {
                    lemma_assoc_map_contains(self.objects@, id@);
                } else {
                    lemma_assoc_map_contains(self.keep_alive_entries@, keep_alive_key@);
                }
            }
            attempt = attempt + 1;
        }
        Err(PublishError::AttemptsExhausted)
    }

    /// Request that the object protected by this keep-alive key stay alive:
    /// the expiry armed for the lease is cancelled and a fresh one armed
    /// with a full timeout. The object identifier is unchanged. Fails
    /// exactly on keys that are not live; losing a race against the expiry
    /// is such a failure, not an error of the registry.
    pub fn renew(&mut self, keep_alive_key: &String) -> (r: Result<RenewReceipt, ServerError>)
        requires
            old(self).wf(),
            old(self).spec_next_timer() < u64::MAX,
        ensures
            final(self).wf(),
            r is Ok <==> old(self).leases_map().dom().contains(keep_alive_key@),
            renew_outcome(*old(self), *final(self), keep_alive_key@, r),
    {
        proof {
            lemma_assoc_map_contains(self.keep_alive_entries@, keep_alive_key@);
        }
        match self.find_lease_index(keep_alive_key) {
            None => Err(ServerError::UnknownKeepAliveKey),
            Some(i) => {
                proof {
                    lemma_assoc_map_index(self.keep_alive_entries@, i as int);
                    lemma_assoc_map_remove(self.keep_alive_entries@, i as int);
                }
                let removed = self.keep_alive_entries.remove(i);
                let cancelled_timer = removed.1.timer;
                let armed_timer = self.next_timer;
                self.next_timer = self.next_timer + 1;
                self.keep_alive_entries.push(
                    (
                        keep_alive_key.clone(),
                        KeepAliveEntry { object_id: removed.1.object_id, timer: armed_timer },
                    ),
                );
                proof {
                    let l0 = old(self).keep_alive_entries@;
                    let pair = self.keep_alive_entries@.last();
                    lemma_renew_preserves_wf(*old(self), *self, i as int, pair);
                    lemma_assoc_map_push(l0.remove(i as int), pair.0, pair.1);
                    assert(self.keep_alive_entries@ =~= l0.remove(i as int).push(pair));
                    assert(self.leases_map() =~= old(self).leases_map().insert(
                        keep_alive_key@,
                        pair.1,
                    ));
                }
                Ok(RenewReceipt { cancelled_timer, armed_timer })
            },
        }
    }

    /// Whether another expiry timer can still be armed: `publish` and
    /// `renew` each consume one timer number. The counter is 64 bits wide,
    /// so in practice this is always true; an unverified caller tests it
    /// instead of assuming it.
    pub fn can_arm_timer(&self) -> (r: bool)
        ensures
            r == (self.spec_next_timer() < u64::MAX),
    {
        self.next_timer < u64::MAX
    }

    /// How many objects are live.
    pub fn object_count(&self) -> (n: usize)
        requires
            self.wf(),
        ensures
            n == self.objects_map().dom().len(),
    {
        proof {
            lemma_assoc_map_dom_len(self.objects@);
        }
        self.objects.len()
    }

    /// How many leases are live. In a well-formed registry this equals
    /// [`Self::object_count`]: see [`lemma_bijection`].
    pub fn lease_count(&self) -> (n: usize)
        requires
            self.wf(),
        ensures
            n == self.leases_map().dom().len(),
    {
        proof {
            lemma_assoc_map_dom_len(self.keep_alive_entries@);
        }
        self.keep_alive_entries.len()
    }

    /// An armed expiry fires: if the keep-alive key is still live and
    /// `timer` is still its armed timer number, remove the object and the
    /// lease together and report `true`. A stale firing — the lease was
    /// renewed, re-created or already removed — changes nothing, reports
    /// `false`, and is never an error: losing that race is expected.
    pub fn expire(&mut self, keep_alive_key: &String, timer: u64) -> (fired: bool)
        requires
            old(self).wf(),
        ensures
            final(self).wf(),
            expire_step(*old(self), *final(self), keep_alive_key@, timer, fired),
    {
        proof {
            lemma_assoc_map_contains(self.keep_alive_entries@, keep_alive_key@);
        }
        match self.find_lease_index(keep_alive_key) {
            None => false,
            Some(i) => {
                proof {
                    lemma_assoc_map_index(self.keep_alive_entries@, i as int);
                }
                if self.keep_alive_entries[i].1.timer != timer {
                    return false;
                }
                let object_id = self.keep_alive_entries[i].1.object_id.clone();
                match self.find_object_index(&object_id) {
                    None => {
                        // The invariant says the protected object is live.
                        proof {
                            assert(table_has_key(self.objects@, object_id@));
                            assert(false);
                        }
                        false
                    },
                    Some(j) => {
                        proof {
                            lemma_assoc_map_index(self.objects@, j as int);
                            lemma_assoc_map_remove(self.objects@, j as int);
                            lemma_assoc_map_remove(self.keep_alive_entries@, i as int);
                        }
                        self.objects.remove(j);
                        self.keep_alive_entries.remove(i);
                        proof {
                            lemma_expire_preserves_wf(*old(self), *self, i as int, j as int);
                        }
                        true
                    },
                }
            },
        }
    }

    /// Get the object data given its ID. Read-only: lease state is not
    /// affected. Fails exactly on identifiers that are not live.
    pub fn lookup(&self, id: &String) -> (r: Result<ObjectEntry, ServerError>)
        requires
            self.wf(),
        ensures
            r == spec_lookup(*self, id@),
            r is Ok <==> self.objects_map().dom().contains(id@),
    {
        proof {
            lemma_assoc_map_contains(self.objects@, id@);
        }
        match self.find_object_index(id) {
            Some(i) => {
                proof {
                    lemma_assoc_map_index(self.objects@, i as int);
                }
                Ok(self.objects[i].1.clone())
            },
            None => Err(ServerError::UnknownObject),
        }
    }
}

} // verus!
