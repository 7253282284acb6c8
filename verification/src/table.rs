//! The request correlation table: a mapping from network-assigned request id
//! to the single-use reply acceptor of the caller that submitted the request.
//! The table also keeps the bookkeeping that ties its size to the number of
//! requests started and resolved.

use vstd::prelude::*;

use crate::reply::{ReplyAcceptor, ReplyPayload};
use crate::types::{Anomaly, RequestId};

verus! {

/// Storage for the pending entries, backed by a hash map of the `hashbrown`
/// crate. Verified code reads it only through `pending_entries` and the
/// trusted accessors below.
#[verifier::external_body]
pub struct PendingMap {
    inner: hashbrown::HashMap<RequestId, ReplyAcceptor>,
}

/// The entries the backing hash map currently holds, as a mathematical map.
pub uninterp spec fn pending_entries(m: PendingMap) -> Map<RequestId, ReplyAcceptor>;

/// The contents of a table that holds no entry.
pub open spec fn no_entries() -> Map<RequestId, ReplyAcceptor> {
    Map::empty()
}

/// The delivery record of a table that has resolved nothing yet.
pub open spec fn no_deliveries() -> Seq<(RequestId, ReplyPayload)> {
    Seq::empty()
}

/// Relies on hashbrown::HashMap::new: a freshly created map holds no entry.
#[verifier::external_body]
fn pending_new() -> (m: PendingMap)
    ensures
        pending_entries(m) == no_entries(),
{
    PendingMap { inner: hashbrown::HashMap::new() }
}

/// Relies on hashbrown::HashMap::contains_key: it reports whether the map
/// holds an entry for the key.
#[verifier::external_body]
fn pending_contains(m: &PendingMap, id: RequestId) -> (b: bool)
    ensures
        b == pending_entries(*m).contains_key(id),
{
    m.inner.contains_key(&id)
}

/// Relies on hashbrown::HashMap::insert: it maps the key to the value,
/// replacing any previous entry for the key.
#[verifier::external_body]
fn pending_insert(m: &mut PendingMap, id: RequestId, reply: ReplyAcceptor)
    ensures
        pending_entries(*final(m)) == pending_entries(*old(m)).insert(id, reply),
{
    m.inner.insert(id, reply);
}

/// Relies on hashbrown::HashMap::remove: it removes and returns the entry for
/// the key, and leaves the map unchanged when the key is absent.
#[verifier::external_body]
fn pending_remove(m: &mut PendingMap, id: RequestId) -> (r: Option<ReplyAcceptor>)
    ensures
        pending_entries(*final(m)) == pending_entries(*old(m)).remove(id),
        r == (if pending_entries(*old(m)).contains_key(id) {
            Some(pending_entries(*old(m))[id])
        } else {
            None::<ReplyAcceptor>
        }),
{
    m.inner.remove(&id)
}

/// Relies on hashbrown::HashMap::len: it returns the number of entries.
#[verifier::external_body]
fn pending_len(m: &PendingMap) -> (n: usize)
    ensures
        n == pending_entries(*m).len(),
{
    m.inner.len()
}

/// Mapping from outstanding request id to the reply acceptor of the caller
/// that submitted the request. An id is present from the moment the network
/// worker acknowledges the start of the request until the moment its
/// completion is processed (or the task terminates and drops the table).
pub struct CorrelationTable {
    pending: PendingMap,
    started: Ghost<nat>,
    resolved: Ghost<nat>,
    delivered_log: Ghost<Seq<(RequestId, ReplyPayload)>>,
}

impl CorrelationTable {
    /// The outstanding entries as a mathematical map.
    pub closed spec fn entries(self) -> Map<RequestId, ReplyAcceptor> {
        pending_entries(self.pending)
    }

    /// How many requests have been recorded as started.
    pub closed spec fn started_count(self) -> nat {
        self.started@
    }

    /// How many recorded requests have been resolved.
    pub closed spec fn resolved_count(self) -> nat {
        self.resolved@
    }

    /// What has been handed to the reply acceptors, in order: one pair of
    /// resolved id and verbatim result per resolution.
    pub closed spec fn deliveries(self) -> Seq<(RequestId, ReplyPayload)> {
        self.delivered_log@
    }

    /// Bookkeeping invariant: the table holds exactly the requests started
    /// but not yet resolved, and every resolution is on record.
    pub open spec fn wf(self) -> bool {
        &&& self.entries().dom().finite()
        &&& self.resolved_count() <= self.started_count()
        &&& self.entries().len() == self.started_count() - self.resolved_count()
        &&& self.deliveries().len() == self.resolved_count()
    }

    /// Creates an empty table: nothing started, nothing resolved.
    pub fn new() -> (t: CorrelationTable)
        ensures
            t.wf(),
            t.entries() == no_entries(),
            t.started_count() == 0,
            t.resolved_count() == 0,
            t.deliveries() == no_deliveries(),
    {
        let t = CorrelationTable {
            pending: pending_new(),
            started: Ghost(0),
            resolved: Ghost(0),
            delivered_log: Ghost(no_deliveries()),
        };
        proof {
            broadcast use vstd::set::group_set_axioms;

            assert(t.entries().dom() =~= Set::<RequestId>::empty());
        }
        t
    }

    /// Whether the table holds an entry for `id`.
    pub fn contains(&self, id: RequestId) -> (b: bool)
        ensures
            b == self.entries().contains_key(id),
    {
        pending_contains(&self.pending, id)
    }

    /// Number of outstanding entries.
    pub fn len(&self) -> (n: usize)
        ensures
            n == self.entries().len(),
    {
        pending_len(&self.pending)
    }

    /// Records a new pending entry. The network worker promises that `id` is
    /// not outstanding; if it is after all, the existing entry is kept
    /// untouched and the violation is reported as an anomaly.
    pub fn insert(&mut self, id: RequestId, reply: ReplyAcceptor) -> (r: Result<(), Anomaly>)
        requires
            old(self).wf(),
        ensures
            final(self).wf(),
            !old(self).entries().contains_key(id) ==> {
                &&& r == Ok::<(), Anomaly>(())
                &&& final(self).entries() == old(self).entries().insert(id, reply)
                &&& final(self).started_count() == old(self).started_count() + 1
                &&& final(self).resolved_count() == old(self).resolved_count()
                &&& final(self).deliveries() == old(self).deliveries()
            },
            old(self).entries().contains_key(id) ==> {
                &&& r == Err::<(), Anomaly>(Anomaly::DuplicateRequestId(id))
                &&& *final(self) == *old(self)
            },
    {
        if pending_contains(&self.pending, id) {
            Err(Anomaly::DuplicateRequestId(id))
        } else {
            pending_insert(&mut self.pending, id, reply);
            self.started = Ghost(self.started@ + 1);
            proof {
                broadcast use vstd::set::group_set_axioms;
                broadcast use vstd::map::group_map_axioms;

                assert(self.entries().dom() =~= old(self).entries().dom().insert(id));
            }
            Ok(())
        }
    }

    /// Removes the entry for `id`, if any, and hands `result` — verbatim, an
    /// `Ok` and an `Err` alike — to its reply acceptor. Returns whether an
    /// entry was found; an absent id leaves the table untouched and delivers
    /// nothing.
    pub fn resolve(&mut self, id: RequestId, result: ReplyPayload) -> (found: bool)
        requires
            old(self).wf(),
        ensures
            final(self).wf(),
            found == old(self).entries().contains_key(id),
            final(self).entries() == old(self).entries().remove(id),
            final(self).started_count() == old(self).started_count(),
            found ==> final(self).resolved_count() == old(self).resolved_count() + 1,
            found ==> final(self).deliveries() == old(self).deliveries().push((id, result)),
            !found ==> final(self).resolved_count() == old(self).resolved_count(),
            !found ==> final(self).deliveries() == old(self).deliveries(),
    {
        match pending_remove(&mut self.pending, id) {
            Some(acceptor) => {
                self.delivered_log = Ghost(self.delivered_log@.push((id, result)));
                let _ = acceptor.deliver(result);
                self.resolved = Ghost(self.resolved@ + 1);
                proof {
                    broadcast use vstd::set::group_set_axioms;
                    broadcast use vstd::map::group_map_axioms;

                    assert(self.entries().dom() =~= old(self).entries().dom().remove(id));
                }
                true
            },
            None => {
                proof {
                    broadcast use vstd::map::group_map_axioms;

                    assert(pending_entries(self.pending) =~= old(self).entries());
                }
                false
            },
        }
    }
}

/// The table's size at any point equals the number of requests started minus
/// the number resolved, and every resolution stands in the delivery record.
pub proof fn lemma_size_bookkeeping(t: CorrelationTable)
    requires
        t.wf(),
    ensures
        t.entries().len() == t.started_count() - t.resolved_count(),
        t.deliveries().len() == t.resolved_count(),
{
}

/// Resolving removes the entry for the id, and resolving the same id again
/// changes nothing: removal is idempotent, so a second resolution has no
/// observable effect beyond the first.
pub proof fn lemma_resolve_idempotent(m: Map<RequestId, ReplyAcceptor>, id: RequestId)
    ensures
        m.remove(id).remove(id) == m.remove(id),
        !m.remove(id).contains_key(id),
{
    assert(m.remove(id).remove(id) =~= m.remove(id));
}

} // verus!
