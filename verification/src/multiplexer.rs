//! The event multiplexer: the state machine at the heart of the networking
//! task. It owns the correlation table, consumes the two event sources
//! (inbound submissions and network events) one event at a time, and routes
//! each completion back to exactly the caller that submitted the matching
//! request. The async loop that waits on the two sources merely feeds it.

use vstd::prelude::*;

use crate::history::{hist_init, hist_inv, hist_step, HistEvent, History};
use crate::reply::{ReplyAcceptor, ReplyPayload};
use crate::table::CorrelationTable;
use crate::types::{Anomaly, BlocksRequestConfig, NetworkEvent, RequestId};

verus! {

/// Message that the other parts of the service send to the networking task.
pub enum ToNetwork {
    /// A new block request: its configuration, and the acceptor through which
    /// the submitting caller receives the result.
    BlocksRequest(BlocksRequestConfig, ReplyAcceptor),
}

/// The loop's state: it runs until the submission source is closed, then
/// terminates for good.
#[derive(Clone, Copy, PartialEq, Eq, Structural, Debug)]
pub enum LoopState {
    Running,
    Terminated,
}

/// The bookkeeping event that a network event amounts to.
pub open spec fn net_hist_event(ev: NetworkEvent) -> HistEvent {
    match ev {
        NetworkEvent::BlockAnnounce(_) => HistEvent::Announce,
        NetworkEvent::BlocksRequestFinished { id, .. } => HistEvent::Completed(id),
    }
}

/// The event multiplexer. Exclusively owns the correlation table; anomalies
/// are recorded, never fatal.
pub struct Multiplexer {
    table: CorrelationTable,
    state: LoopState,
    anomalies: Vec<Anomaly>,
    hist: Ghost<History>,
}

impl Multiplexer {
    /// The outstanding entries of the correlation table.
    pub closed spec fn entries(self) -> Map<RequestId, ReplyAcceptor> {
        self.table.entries()
    }

    /// The anomalies recorded so far, oldest first.
    pub closed spec fn log(self) -> Seq<Anomaly> {
        self.anomalies@
    }

    /// What has been handed to the reply acceptors so far, in order: one pair
    /// of resolved id and verbatim result per processed completion.
    pub closed spec fn deliveries(self) -> Seq<(RequestId, ReplyPayload)> {
        self.table.deliveries()
    }

    /// The ghost history of everything processed so far.
    pub closed spec fn history(self) -> History {
        self.hist@
    }

    /// Whether the loop is still running.
    pub closed spec fn running(self) -> bool {
        self.state == LoopState::Running
    }

    /// How many requests have been recorded as started.
    pub closed spec fn started_count(self) -> nat {
        self.table.started_count()
    }

    /// How many recorded requests have been resolved.
    pub closed spec fn resolved_count(self) -> nat {
        self.table.resolved_count()
    }

    /// Well-formedness: the table's bookkeeping holds, the ghost history
    /// satisfies its invariant, both agree on which ids are outstanding and
    /// on whether the loop has terminated, and the serials handed a result
    /// match the delivery record one for one.
    pub closed spec fn wf(self) -> bool {
        &&& self.table.wf()
        &&& hist_inv(self.history())
        &&& self.history().pending.dom() == self.entries().dom()
        &&& self.history().terminated == !self.running()
        &&& self.history().delivered.len() == self.deliveries().len()
    }

    /// A fresh multiplexer: running, with an empty table and a clean log.
    pub fn new() -> (m: Multiplexer)
        ensures
            m.wf(),
            m.running(),
            m.entries() == crate::table::no_entries(),
            m.log() == Seq::<Anomaly>::empty(),
            m.deliveries() == crate::table::no_deliveries(),
            m.history() == hist_init(),
    {
        let m = Multiplexer {
            table: CorrelationTable::new(),
            state: LoopState::Running,
            anomalies: Vec::new(),
            hist: Ghost(hist_init()),
        };
        proof {
            broadcast use vstd::map::group_map_axioms;

            assert(m.history().pending.dom() =~= m.entries().dom());
        }
        m
    }

    /// Handles one event reported by the network. An announcement is ignored;
    /// a completion resolves the matching entry, handing the completion's
    /// result — verbatim, an `Ok` and an `Err` alike — to the submitting
    /// caller. A completion whose id is unknown — never started by this core,
    /// or already resolved — is recorded as an anomaly; it resolves no other
    /// entry, delivers nothing, and never terminates the loop.
    pub fn on_network_event(&mut self, ev: NetworkEvent)
        requires
            old(self).wf(),
            old(self).running(),
        ensures
            final(self).wf(),
            final(self).running(),
            final(self).history() == hist_step(old(self).history(), net_hist_event(ev)),
            ev matches NetworkEvent::BlockAnnounce(_) ==> {
                &&& final(self).entries() == old(self).entries()
                &&& final(self).log() == old(self).log()
                &&& final(self).deliveries() == old(self).deliveries()
                &&& final(self).started_count() == old(self).started_count()
                &&& final(self).resolved_count() == old(self).resolved_count()
            },
            ev matches NetworkEvent::BlocksRequestFinished { id, result } ==> {
                &&& old(self).entries().contains_key(id) ==> {
                    &&& final(self).entries() == old(self).entries().remove(id)
                    &&& final(self).log() == old(self).log()
                    &&& final(self).deliveries() == old(self).deliveries().push((id, result))
                    &&& final(self).resolved_count() == old(self).resolved_count() + 1
                }
                &&& !old(self).entries().contains_key(id) ==> {
                    &&& final(self).entries() == old(self).entries()
                    &&& final(self).log() == old(self).log().push(Anomaly::UnknownCompletion(id))
                    &&& final(self).deliveries() == old(self).deliveries()
                    &&& final(self).resolved_count() == old(self).resolved_count()
                }
                &&& final(self).started_count() == old(self).started_count()
            },
    {
        match ev {
            NetworkEvent::BlockAnnounce(_) => {},
            NetworkEvent::BlocksRequestFinished { id, result } => {
                let found = self.table.resolve(id, result);
                self.hist = Ghost(hist_step(self.hist@, HistEvent::Completed(id)));
                if !found {
                    self.anomalies.push(Anomaly::UnknownCompletion(id));
                }
                proof {
                    broadcast use vstd::map::group_map_axioms;
                    broadcast use vstd::set::group_set_axioms;

                    crate::history::lemma_hist_inv_step(
                        old(self).history(),
                        HistEvent::Completed(id),
                    );
                    if old(self).entries().contains_key(id) {
                        assert(self.history().pending.dom() =~= self.entries().dom());
                    } else {
                        assert(old(self).entries().remove(id) =~= old(self).entries());
                        assert(self.history().pending.dom() =~= self.entries().dom());
                    }
                }
            },
        }
    }

    /// Records a submitted request once the network worker has acknowledged
    /// its start and assigned `id`. The worker promises `id` is not already
    /// outstanding; if it is after all, the existing entry is kept untouched
    /// and the violation is recorded as an anomaly.
    pub fn on_request_started(&mut self, id: RequestId, reply: ReplyAcceptor)
        requires
            old(self).wf(),
            old(self).running(),
        ensures
            final(self).wf(),
            final(self).running(),
            final(self).history() == hist_step(old(self).history(), HistEvent::Started(id)),
            final(self).resolved_count() == old(self).resolved_count(),
            final(self).deliveries() == old(self).deliveries(),
            !old(self).entries().contains_key(id) ==> {
                &&& final(self).entries() == old(self).entries().insert(id, reply)
                &&& final(self).log() == old(self).log()
                &&& final(self).started_count() == old(self).started_count() + 1
            },
            old(self).entries().contains_key(id) ==> {
                &&& final(self).entries() == old(self).entries()
                &&& final(self).log() == old(self).log().push(Anomaly::DuplicateRequestId(id))
                &&& final(self).started_count() == old(self).started_count()
            },
    {
        let r = self.table.insert(id, reply);
        self.hist = Ghost(hist_step(self.hist@, HistEvent::Started(id)));
        match r {
            Ok(()) => {},
            Err(anomaly) => {
                self.anomalies.push(anomaly);
            },
        }
        proof {
            broadcast use vstd::map::group_map_axioms;
            broadcast use vstd::set::group_set_axioms;

            crate::history::lemma_hist_inv_step(old(self).history(), HistEvent::Started(id));
            assert(self.history().pending.dom() =~= self.entries().dom());
        }
    }

    /// Transitions to `Terminated`: the submission source is exhausted, and
    /// the loop ends immediately, whatever is still outstanding. Pending
    /// entries are simply dropped; their callers see a dropped reply channel.
    pub fn on_submissions_closed(&mut self)
        requires
            old(self).wf(),
        ensures
            final(self).wf(),
            !final(self).running(),
            final(self).entries() == old(self).entries(),
            final(self).log() == old(self).log(),
            final(self).deliveries() == old(self).deliveries(),
            final(self).started_count() == old(self).started_count(),
            final(self).resolved_count() == old(self).resolved_count(),
            final(self).history() == hist_step(old(self).history(), HistEvent::Closed),
    {
        self.state = LoopState::Terminated;
        self.hist = Ghost(hist_step(self.hist@, HistEvent::Closed));
    }

    /// Whether the loop is still running; `false` once the submission source
    /// has been closed.
    pub fn is_running(&self) -> (b: bool)
        ensures
            b == self.running(),
    {
        match self.state {
            LoopState::Running => true,
            LoopState::Terminated => false,
        }
    }

    /// Number of outstanding requests: started but not yet resolved.
    pub fn pending_len(&self) -> (n: usize)
        ensures
            n == self.entries().len(),
            self.wf() ==> n == self.started_count() - self.resolved_count(),
    {
        self.table.len()
    }

    /// Whether a request with this id is outstanding.
    pub fn is_pending(&self, id: RequestId) -> (b: bool)
        ensures
            b == self.entries().contains_key(id),
    {
        self.table.contains(id)
    }

    /// The anomalies recorded so far, oldest first.
    pub fn anomalies(&self) -> (r: &Vec<Anomaly>)
        ensures
            r@ == self.log(),
    {
        &self.anomalies
    }
}

/// What well-formedness guarantees at any point of the loop: the number of
/// outstanding requests equals the number started minus the number resolved,
/// every resolution stands in the delivery record, the ghost history
/// satisfies its invariant and agrees with the table on which ids are
/// outstanding, and the history is terminated exactly when the loop is.
pub proof fn lemma_mux_invariants(m: Multiplexer)
    requires
        m.wf(),
    ensures
        m.entries().len() == m.started_count() - m.resolved_count(),
        m.deliveries().len() == m.resolved_count(),
        m.history().delivered.len() == m.deliveries().len(),
        hist_inv(m.history()),
        m.history().pending.dom() == m.entries().dom(),
        m.history().terminated == !m.running(),
{
}

} // verus!
