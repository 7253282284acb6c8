//! End-to-end behaviour of the event multiplexer and its correlation table,
//! driven with real oneshot channels.

use futures::channel::oneshot;

use netmux::multiplexer::{Multiplexer, ToNetwork};
use netmux::reply::{ReplyAcceptor, ReplyPayload};
use netmux::table::CorrelationTable;
use netmux::types::{Anomaly, BlockData, BlocksRequestConfig, NetworkEvent};

fn block(byte: u8) -> BlockData {
    BlockData { bytes: vec![byte] }
}

fn channel() -> (ReplyAcceptor, oneshot::Receiver<ReplyPayload>) {
    let (tx, rx) = oneshot::channel();
    (ReplyAcceptor::new(tx), rx)
}

#[test]
fn submit_then_complete_delivers_exactly_once() {
    // Request A is assigned id 7; its completion carries ten blocks, and A's
    // acceptor receives exactly that result.
    let (acceptor, mut rx) = channel();
    let mut mux = Multiplexer::new();
    mux.on_request_started(7, acceptor);
    assert!(mux.is_pending(7));
    assert_eq!(mux.pending_len(), 1);

    let blocks: Vec<BlockData> = (0u8..10).map(block).collect();
    mux.on_network_event(NetworkEvent::BlocksRequestFinished {
        id: 7,
        result: Ok(blocks.clone()),
    });
    assert!(!mux.is_pending(7));
    assert_eq!(mux.pending_len(), 0);
    assert!(mux.is_running());
    assert!(mux.anomalies().is_empty());
    assert_eq!(rx.try_recv(), Ok(Some(Ok(blocks))));
}

#[test]
fn dropped_acceptor_makes_delivery_a_silent_no_op() {
    // Request B's caller abandons interest before the completion arrives:
    // no panic, no anomaly, and the entry is still cleaned up.
    let (acceptor, rx) = channel();
    drop(rx);
    let mut mux = Multiplexer::new();
    mux.on_request_started(4, acceptor);
    mux.on_network_event(NetworkEvent::BlocksRequestFinished {
        id: 4,
        result: Ok(vec![block(1)]),
    });
    assert_eq!(mux.pending_len(), 0);
    assert!(mux.is_running());
    assert!(mux.anomalies().is_empty());
}

#[test]
fn unknown_completion_is_an_anomaly_and_loop_continues() {
    // A completion for id 99 that was never started: recorded, not fatal,
    // and later events are serviced normally.
    let mut mux = Multiplexer::new();
    mux.on_network_event(NetworkEvent::BlocksRequestFinished {
        id: 99,
        result: Err(()),
    });
    assert_eq!(mux.anomalies().as_slice(), &[Anomaly::UnknownCompletion(99)]);
    assert!(mux.is_running());

    let (acceptor, mut rx) = channel();
    mux.on_request_started(1, acceptor);
    mux.on_network_event(NetworkEvent::BlocksRequestFinished {
        id: 1,
        result: Ok(vec![block(9)]),
    });
    assert_eq!(rx.try_recv(), Ok(Some(Ok(vec![block(9)]))));
}

#[test]
fn unknown_completion_resolves_no_unrelated_entry() {
    let (acceptor, mut rx) = channel();
    let mut mux = Multiplexer::new();
    mux.on_request_started(7, acceptor);
    mux.on_network_event(NetworkEvent::BlocksRequestFinished {
        id: 99,
        result: Err(()),
    });
    assert!(mux.is_pending(7));
    assert_eq!(rx.try_recv(), Ok(None));
    assert_eq!(mux.anomalies().as_slice(), &[Anomaly::UnknownCompletion(99)]);

    mux.on_network_event(NetworkEvent::BlocksRequestFinished {
        id: 7,
        result: Err(()),
    });
    assert_eq!(rx.try_recv(), Ok(Some(Err(()))));
}

#[test]
fn closing_the_submission_source_terminates() {
    let mut mux = Multiplexer::new();
    mux.on_submissions_closed();
    assert!(!mux.is_running());
}

#[test]
fn closing_terminates_regardless_of_outstanding_requests() {
    let (acceptor, mut rx) = channel();
    let mut mux = Multiplexer::new();
    mux.on_request_started(2, acceptor);
    mux.on_submissions_closed();
    assert!(!mux.is_running());
    assert_eq!(mux.pending_len(), 1);
    // The pending caller has not been answered; it sees the dropped channel
    // once the multiplexer itself is dropped.
    drop(mux);
    assert!(rx.try_recv().is_err());
}

#[test]
fn pending_count_tracks_started_minus_resolved() {
    let (a, _rx_a) = channel();
    let (b, _rx_b) = channel();
    let mut mux = Multiplexer::new();
    assert_eq!(mux.pending_len(), 0);
    mux.on_request_started(10, a);
    assert_eq!(mux.pending_len(), 1);
    mux.on_request_started(11, b);
    assert_eq!(mux.pending_len(), 2);
    mux.on_network_event(NetworkEvent::BlocksRequestFinished {
        id: 10,
        result: Err(()),
    });
    assert_eq!(mux.pending_len(), 1);
    mux.on_network_event(NetworkEvent::BlocksRequestFinished {
        id: 11,
        result: Err(()),
    });
    assert_eq!(mux.pending_len(), 0);
}

#[test]
fn duplicate_id_keeps_the_existing_entry() {
    let (first, mut rx_first) = channel();
    let (second, mut rx_second) = channel();
    let mut mux = Multiplexer::new();
    mux.on_request_started(5, first);
    mux.on_request_started(5, second);
    assert_eq!(mux.anomalies().as_slice(), &[Anomaly::DuplicateRequestId(5)]);
    assert_eq!(mux.pending_len(), 1);
    // The refused acceptor was dropped; its caller sees a closed channel.
    assert!(rx_second.try_recv().is_err());
    // The original entry still routes to the first caller.
    mux.on_network_event(NetworkEvent::BlocksRequestFinished {
        id: 5,
        result: Ok(vec![block(3)]),
    });
    assert_eq!(rx_first.try_recv(), Ok(Some(Ok(vec![block(3)]))));
}

#[test]
fn announcements_are_ignored() {
    let (acceptor, mut rx) = channel();
    let mut mux = Multiplexer::new();
    mux.on_request_started(8, acceptor);
    mux.on_network_event(NetworkEvent::BlockAnnounce(block(42)));
    assert!(mux.is_running());
    assert!(mux.anomalies().is_empty());
    assert!(mux.is_pending(8));
    assert_eq!(rx.try_recv(), Ok(None));
}

#[test]
fn table_resolution_is_idempotent() {
    // Resolving the same id twice has no observable effect beyond the first
    // resolution.
    let (acceptor, mut rx) = channel();
    let mut table = CorrelationTable::new();
    assert!(table.insert(5, acceptor).is_ok());
    assert_eq!(table.len(), 1);
    assert!(table.resolve(5, Err(())));
    assert_eq!(table.len(), 0);
    assert_eq!(rx.try_recv(), Ok(Some(Err(()))));
    assert!(!table.resolve(5, Ok(vec![block(1)])));
    assert_eq!(table.len(), 0);
}

#[test]
fn acceptor_reports_whether_the_caller_still_listens() {
    let (acceptor, mut rx) = channel();
    assert!(acceptor.deliver(Ok(vec![block(7)])));
    assert_eq!(rx.try_recv(), Ok(Some(Ok(vec![block(7)]))));

    let (abandoned, rx2) = channel();
    drop(rx2);
    assert!(!abandoned.deliver(Err(())));
}

#[test]
fn submission_carries_config_and_acceptor() {
    let (acceptor, mut rx) = channel();
    let config = BlocksRequestConfig { start: 1, count: 9 };
    let submission = ToNetwork::BlocksRequest(config, acceptor);
    match submission {
        ToNetwork::BlocksRequest(forwarded, reply) => {
            assert_eq!(forwarded, BlocksRequestConfig { start: 1, count: 9 });
            assert!(reply.deliver(Ok(Vec::new())));
        }
    }
    assert_eq!(rx.try_recv(), Ok(Some(Ok(Vec::new()))));
}
