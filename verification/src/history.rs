//! Ghost model of everything the multiplexer loop has done so far. Each
//! submission that is recorded receives a fresh serial number; the model
//! tracks which serials are still pending, which have been handed their
//! result, and whether the loop has terminated. The laws at the bottom state
//! how results are routed over arbitrary interleavings of events.

use vstd::prelude::*;

verus! {

/// One interaction of the multiplexer loop, as the bookkeeping model sees it.
pub enum HistEvent {
    /// A submission was forwarded and the network assigned it this id.
    Started(u64),
    /// The network reported the request with this id as finished.
    Completed(u64),
    /// A peer announced a block; this core ignores announcements.
    Announce,
    /// The submission source was closed.
    Closed,
}

/// The model's state: which submissions are outstanding (by id, each carrying
/// the serial number of its submission), which serials have been handed their
/// result, the next fresh serial, and whether the loop has terminated.
pub struct History {
    /// id of each outstanding request, mapped to the serial of its submission.
    pub pending: Map<u64, nat>,
    /// serials of submissions whose reply acceptor was handed a result.
    pub delivered: Set<nat>,
    /// serial to be given to the next recorded submission.
    pub next_serial: nat,
    /// whether the submission source has been closed.
    pub terminated: bool,
}

/// The state before anything happened.
pub open spec fn hist_init() -> History {
    History {
        pending: Map::empty(),
        delivered: Set::empty(),
        next_serial: 0,
        terminated: false,
    }
}

/// How one event changes the model. After termination nothing changes; a
/// duplicate start and an unknown completion change nothing either (they are
/// recorded as anomalies, outside this model).
pub open spec fn hist_step(h: History, e: HistEvent) -> History {
    if h.terminated {
        h
    } else {
        match e {
            HistEvent::Started(id) => {
                if h.pending.contains_key(id) {
                    h
                } else {
                    History {
                        pending: h.pending.insert(id, h.next_serial),
                        next_serial: h.next_serial + 1,
                        ..h
                    }
                }
            },
            HistEvent::Completed(id) => {
                if h.pending.contains_key(id) {
                    History {
                        pending: h.pending.remove(id),
                        delivered: h.delivered.insert(h.pending[id]),
                        ..h
                    }
                } else {
                    h
                }
            },
            HistEvent::Announce => h,
            HistEvent::Closed => History { terminated: true, ..h },
        }
    }
}

/// Invariant of the model: serials are handed out in order, an outstanding
/// submission has not been handed a result, and no two outstanding
/// submissions share a serial.
pub open spec fn hist_inv(h: History) -> bool {
    &&& h.delivered.finite()
    &&& forall|id: u64| #[trigger] h.pending.contains_key(id) ==> h.pending[id]
        < h.next_serial
    &&& forall|id: u64| #[trigger] h.pending.contains_key(id) ==> !h.delivered.contains(
        h.pending[id],
    )
    &&& forall|k: nat| #[trigger] h.delivered.contains(k) ==> k < h.next_serial
    &&& forall|a: u64, b: u64|
        h.pending.contains_key(a) && h.pending.contains_key(b) && #[trigger] h.pending[a]
            == #[trigger] h.pending[b] ==> a == b
}

/// This step hands serial `k` its result: the event is the completion of a
/// still-outstanding request whose submission carries serial `k`, and the
/// loop has not terminated.
pub open spec fn delivers(h: History, e: HistEvent, k: nat) -> bool {
    &&& !h.terminated
    &&& exists|id: u64| e == HistEvent::Completed(id) && #[trigger] h.pending.contains_key(id)
        && h.pending[id] == k
}

/// The invariant holds initially and is preserved by every step.
pub proof fn lemma_hist_inv_init()
    ensures
        hist_inv(hist_init()),
{
}

/// The invariant is preserved by every event, whatever its interleaving.
pub proof fn lemma_hist_inv_step(h: History, e: HistEvent)
    requires
        hist_inv(h),
    ensures
        hist_inv(hist_step(h, e)),
{
    broadcast use vstd::set::group_set_axioms;

}

/// A serial is delivered at a step exactly when that step processes the
/// matching completion of its still-outstanding submission before shutdown;
/// results already delivered stay delivered. This is the "exactly once, and
/// only for a matching completion" direction of result routing.
pub proof fn lemma_delivered_exactly_on_completion(h: History, e: HistEvent)
    ensures
        forall|k: nat| #[trigger] hist_step(h, e).delivered.contains(k) <==> h.delivered.contains(
            k,
        ) || delivers(h, e, k),
{
    let h2 = hist_step(h, e);
    if !h.terminated {
        match e {
            HistEvent::Completed(id) => {
                if h.pending.contains_key(id) {
                    assert forall|k: nat| h.delivered.contains(k) || delivers(h, e, k) implies
                        h2.delivered.contains(k) by {
                        if delivers(h, e, k) {
                            let w = choose|w: u64|
                                e == HistEvent::Completed(w) && #[trigger] h.pending.contains_key(
                                    w,
                                ) && h.pending[w] == k;
                            assert(w == id);
                        }
                    }
                    assert forall|k: nat| h2.delivered.contains(k) && !h.delivered.contains(
                        k,
                    ) implies delivers(h, e, k) by {
                        assert(k == h.pending[id]);
                        assert(e == HistEvent::Completed(id) && h.pending.contains_key(id)
                            && h.pending[id] == k);
                    }
                } else {
                    assert forall|k: nat| !delivers(h, e, k) by {
                        if delivers(h, e, k) {
                            let w = choose|w: u64|
                                e == HistEvent::Completed(w) && #[trigger] h.pending.contains_key(
                                    w,
                                ) && h.pending[w] == k;
                            assert(w == id);
                        }
                    }
                }
            },
            _ => {
                assert forall|k: nat| !delivers(h, e, k) by {}
            },
        }
    }
}

/// A serial already delivered is never delivered again: once a submission has
/// been handed its result, no later event can hand it another.
pub proof fn lemma_no_second_delivery(h: History, e: HistEvent, k: nat)
    requires
        hist_inv(h),
        h.delivered.contains(k),
    ensures
        !delivers(h, e, k),
{
}

/// The state after processing a whole sequence of events, in order.
pub open spec fn hist_run(h: History, es: Seq<HistEvent>) -> History
    decreases es.len(),
{
    if es.len() == 0 {
        h
    } else {
        hist_run(hist_step(h, es[0]), es.drop_first())
    }
}

/// Processing a sequence one event longer is one more step at its end.
pub proof fn lemma_run_snoc(h: History, es: Seq<HistEvent>, e: HistEvent)
    ensures
        hist_run(h, es.push(e)) == hist_step(hist_run(h, es), e),
    decreases es.len(),
{
    if es.len() == 0 {
        assert(es.push(e)[0] == e);
        assert(es.push(e).drop_first() =~= es);
        assert(hist_run(h, es.push(e)) == hist_run(hist_step(h, e), es));
        assert(hist_run(h, es) == h);
    } else {
        assert(es.push(e)[0] == es[0]);
        assert(es.push(e).drop_first() =~= es.drop_first().push(e));
        assert(hist_run(h, es.push(e)) == hist_run(
            hist_step(h, es[0]),
            es.drop_first().push(e),
        ));
        lemma_run_snoc(hist_step(h, es[0]), es.drop_first(), e);
        assert(hist_run(h, es) == hist_run(hist_step(h, es[0]), es.drop_first()));
    }
}

/// The invariant holds after any sequence of events from a state where it
/// holds, in particular after any sequence from the initial state.
pub proof fn lemma_hist_inv_run(h: History, es: Seq<HistEvent>)
    requires
        hist_inv(h),
    ensures
        hist_inv(hist_run(h, es)),
    decreases es.len(),
{
    if es.len() != 0 {
        lemma_hist_inv_step(h, es[0]);
        lemma_hist_inv_run(hist_step(h, es[0]), es.drop_first());
    }
}

/// A result once delivered stays delivered through any further events.
pub proof fn lemma_delivered_monotone(h: History, es: Seq<HistEvent>, k: nat)
    requires
        h.delivered.contains(k),
    ensures
        hist_run(h, es).delivered.contains(k),
    decreases es.len(),
{
    if es.len() != 0 {
        lemma_delivered_exactly_on_completion(h, es[0]);
        lemma_delivered_monotone(hist_step(h, es[0]), es.drop_first(), k);
    }
}

/// Serial `k` is handed its result at step `i` of the run of `es` from `h`.
pub open spec fn delivered_at(h: History, es: Seq<HistEvent>, i: int, k: nat) -> bool {
    0 <= i < es.len() && delivers(hist_run(h, es.take(i)), es[i], k)
}

/// Over any sequence of interleaved submissions and completions, each
/// submission's reply acceptor is handed a result at most once: if the step
/// after the first `i` events delivers serial `k`, no later step does so
/// again.
pub proof fn lemma_at_most_one_delivery(h: History, es: Seq<HistEvent>, i: int, j: int, k: nat)
    requires
        hist_inv(h),
        i < j < es.len(),
        delivered_at(h, es, i, k),
    ensures
        !delivered_at(h, es, j, k),
{
    let si = hist_run(h, es.take(i));
    lemma_run_snoc(h, es.take(i), es[i]);
    assert(es.take(i).push(es[i]) =~= es.take(i + 1));
    lemma_delivered_exactly_on_completion(si, es[i]);
    let si1 = hist_run(h, es.take(i + 1));
    assert(si1.delivered.contains(k));
    assert(es.take(j) =~= es.take(i + 1) + es.take(j).skip(i + 1));
    lemma_run_app(h, es.take(i + 1), es.take(j).skip(i + 1));
    lemma_delivered_monotone(si1, es.take(j).skip(i + 1), k);
    lemma_hist_inv_run(h, es.take(j));
    lemma_no_second_delivery(hist_run(h, es.take(j)), es[j], k);
}

/// Processing a concatenation is processing the two parts in turn.
pub proof fn lemma_run_app(h: History, es1: Seq<HistEvent>, es2: Seq<HistEvent>)
    ensures
        hist_run(h, es1 + es2) == hist_run(hist_run(h, es1), es2),
    decreases es1.len(),
{
    if es1.len() == 0 {
        assert(es1 + es2 =~= es2);
    } else {
        assert((es1 + es2).drop_first() =~= es1.drop_first() + es2);
        lemma_run_app(hist_step(h, es1[0]), es1.drop_first(), es2);
    }
}

/// Over any sequence of interleaved submissions and completions, a
/// submission's reply acceptor has been handed a result after the run exactly
/// when some step of the run processed the matching completion of its
/// still-outstanding request before shutdown (or it had been handed one
/// already). Together with `lemma_at_most_one_delivery`, this says each
/// acceptor receives exactly one result if and only if a matching completion
/// was delivered before shutdown, and at most one in every case.
pub proof fn lemma_delivery_iff_completion(h: History, es: Seq<HistEvent>, k: nat)
    ensures
        hist_run(h, es).delivered.contains(k) <==> h.delivered.contains(k) || exists|i: int|
            delivered_at(h, es, i, k),
    decreases es.len(),
{
    if es.len() == 0 {
        assert(forall|i: int| !delivered_at(h, es, i, k));
    } else {
        let h1 = hist_step(h, es[0]);
        let dft = es.drop_first();
        lemma_delivery_iff_completion(h1, dft, k);
        lemma_delivered_exactly_on_completion(h, es[0]);
        assert(hist_run(h, es) == hist_run(h1, dft));
        assert(es.take(0) =~= Seq::<HistEvent>::empty());
        assert(hist_run(h, es.take(0)) == h);
        assert forall|j: int| 0 <= j < dft.len() implies hist_run(h1, dft.take(j)) == hist_run(
            h,
            es.take(j + 1),
        ) && dft[j] == es[j + 1] by {
            assert(es.take(j + 1)[0] == es[0]);
            assert(es.take(j + 1).drop_first() =~= dft.take(j));
        }
        if hist_run(h, es).delivered.contains(k) {
            if h1.delivered.contains(k) {
                if !h.delivered.contains(k) {
                    assert(delivers(h, es[0], k));
                    assert(delivered_at(h, es, 0, k));
                }
            } else {
                let j = choose|j: int| delivered_at(h1, dft, j, k);
                assert(delivered_at(h, es, j + 1, k));
            }
        }
        if h.delivered.contains(k) {
            assert(h1.delivered.contains(k));
            assert(hist_run(h1, dft).delivered.contains(k));
        } else if exists|i: int| delivered_at(h, es, i, k) {
            let i = choose|i: int| delivered_at(h, es, i, k);
            if i == 0 {
                assert(delivers(h, es[0], k));
                assert(h1.delivered.contains(k));
            } else {
                assert(delivered_at(h1, dft, i - 1, k));
            }
            assert(hist_run(h1, dft).delivered.contains(k));
        }
    }
}

/// Closing the submission source terminates the model in exactly one step,
/// whatever is still outstanding, and every later event leaves the state as
/// it is.
pub proof fn lemma_closed_terminates(h: History, es: Seq<HistEvent>)
    ensures
        hist_step(h, HistEvent::Closed).terminated,
        hist_run(hist_step(h, HistEvent::Closed), es) == hist_step(h, HistEvent::Closed),
    decreases es.len(),
{
    if es.len() != 0 {
        assert(hist_step(hist_step(h, HistEvent::Closed), es[0]) == hist_step(
            h,
            HistEvent::Closed,
        ));
        lemma_closed_terminates(h, es.drop_first());
    }
}

} // verus!
