use kitabu_server::websocket::{Attempt, Delivery, WebSocketService, PORT, QUEUE_CAPACITY};
use tokio::sync::mpsc::{channel, Receiver};

fn hub_of(n: u64, capacity: usize) -> (WebSocketService, Vec<Option<Receiver<Vec<u8>>>>) {
    let mut hub = WebSocketService::new();
    let mut receivers = Vec::new();
    for id in 1..=n {
        let (tx, rx) = channel::<Vec<u8>>(capacity);
        assert!(hub.register(id, tx));
        receivers.push(Some(rx));
    }
    (hub, receivers)
}

fn ids(report: &[Attempt]) -> Vec<u64> {
    report.iter().map(|a| a.id).collect()
}

#[test]
fn fixed_settings() {
    assert_eq!(PORT, 49156);
    assert_eq!(QUEUE_CAPACITY, 100);
}

#[test]
fn new_hub_is_empty() {
    let mut hub = WebSocketService::new();
    assert_eq!(hub.len(), 0);
    assert!(!hub.contains(1));
    assert_eq!(hub.send_message_to_clients(vec![1]), vec![]);
}

#[test]
fn broadcast_reaches_every_client_once() {
    let (mut hub, mut receivers) = hub_of(3, 4);
    let report = hub.send_message_to_clients(vec![7, 8, 9]);
    assert_eq!(
        report,
        vec![
            Attempt { id: 1, outcome: Delivery::Delivered },
            Attempt { id: 2, outcome: Delivery::Delivered },
            Attempt { id: 3, outcome: Delivery::Delivered },
        ]
    );
    for rx in receivers.iter_mut() {
        let rx = rx.as_mut().unwrap();
        assert_eq!(rx.try_recv().unwrap(), vec![7, 8, 9]);
        assert!(rx.try_recv().is_err());
    }
    assert_eq!(hub.len(), 3);
}

#[test]
fn closed_channel_is_pruned_by_the_sweep() {
    let (mut hub, mut receivers) = hub_of(5, 4);
    receivers[2] = None;
    let report = hub.send_message_to_clients(vec![1, 2]);
    assert_eq!(ids(&report), vec![1, 2, 3, 4, 5]);
    for attempt in &report {
        let expected = if attempt.id == 3 { Delivery::Closed } else { Delivery::Delivered };
        assert_eq!(attempt.outcome, expected);
    }
    assert_eq!(hub.len(), 4);
    assert!(!hub.contains(3));
    for id in [1u64, 2, 4, 5] {
        assert!(hub.contains(id));
        let rx = receivers[(id - 1) as usize].as_mut().unwrap();
        assert_eq!(rx.try_recv().unwrap(), vec![1, 2]);
        assert!(rx.try_recv().is_err());
    }
    let report = hub.send_message_to_clients(vec![3]);
    assert_eq!(
        report,
        vec![
            Attempt { id: 1, outcome: Delivery::Delivered },
            Attempt { id: 2, outcome: Delivery::Delivered },
            Attempt { id: 4, outcome: Delivery::Delivered },
            Attempt { id: 5, outcome: Delivery::Delivered },
        ]
    );
    for id in [1u64, 2, 4, 5] {
        let rx = receivers[(id - 1) as usize].as_mut().unwrap();
        assert_eq!(rx.try_recv().unwrap(), vec![3]);
    }
    assert_eq!(hub.len(), 4);
}

#[test]
fn receiver_that_closed_is_pruned_too() {
    let (mut hub, mut receivers) = hub_of(2, 4);
    receivers[0].as_mut().unwrap().close();
    let report = hub.send_message_to_clients(vec![1]);
    assert_eq!(
        report,
        vec![
            Attempt { id: 1, outcome: Delivery::Closed },
            Attempt { id: 2, outcome: Delivery::Delivered },
        ]
    );
    assert_eq!(hub.len(), 1);
    assert!(hub.contains(2));
}

#[test]
fn all_closed_leaves_an_empty_registry() {
    let (mut hub, receivers) = hub_of(3, 1);
    drop(receivers);
    let report = hub.send_message_to_clients(vec![]);
    assert_eq!(ids(&report), vec![1, 2, 3]);
    assert!(report.iter().all(|a| a.outcome == Delivery::Closed));
    assert_eq!(hub.len(), 0);
    assert_eq!(hub.send_message_to_clients(vec![]), vec![]);
}

#[test]
fn full_queue_misses_the_frame_and_stays() {
    let (mut hub, mut receivers) = hub_of(2, 1);
    assert!(hub.send_message_to_clients(vec![1]).iter().all(|a| a.outcome == Delivery::Delivered));
    assert_eq!(receivers[1].as_mut().unwrap().try_recv().unwrap(), vec![1]);
    let report = hub.send_message_to_clients(vec![2]);
    assert_eq!(
        report,
        vec![Attempt { id: 1, outcome: Delivery::Full }, Attempt { id: 2, outcome: Delivery::Delivered }]
    );
    assert_eq!(hub.len(), 2);
    let first = receivers[0].as_mut().unwrap();
    assert_eq!(first.try_recv().unwrap(), vec![1]);
    assert!(first.try_recv().is_err());
    assert_eq!(receivers[1].as_mut().unwrap().try_recv().unwrap(), vec![2]);
}

#[test]
fn frames_keep_their_order_in_one_queue() {
    let (mut hub, mut receivers) = hub_of(1, 8);
    for n in 0..5u8 {
        hub.send_message_to_clients(vec![n]);
    }
    let rx = receivers[0].as_mut().unwrap();
    for n in 0..5u8 {
        assert_eq!(rx.try_recv().unwrap(), vec![n]);
    }
}

#[test]
fn unregister_is_idempotent() {
    let (mut hub, _receivers) = hub_of(3, 1);
    assert!(hub.unregister(2));
    assert_eq!(hub.len(), 2);
    assert!(!hub.contains(2));
    assert!(!hub.unregister(2));
    assert_eq!(hub.len(), 2);
    assert!(hub.contains(1) && hub.contains(3));
    assert!(!hub.unregister(99));
    assert_eq!(hub.len(), 2);
    assert_eq!(ids(&hub.send_message_to_clients(vec![0])), vec![1, 3]);
}

#[test]
fn unregister_on_an_empty_hub() {
    let mut hub = WebSocketService::new();
    assert!(!hub.unregister(1));
    assert!(!hub.unregister(1));
    assert_eq!(hub.len(), 0);
}

#[test]
fn registering_twice_keeps_the_first_queue() {
    let mut hub = WebSocketService::new();
    let (first_tx, mut first_rx) = channel::<Vec<u8>>(2);
    let (second_tx, mut second_rx) = channel::<Vec<u8>>(2);
    assert!(hub.register(9, first_tx));
    assert!(!hub.register(9, second_tx));
    assert_eq!(hub.len(), 1);
    let report = hub.send_message_to_clients(vec![5]);
    assert_eq!(report, vec![Attempt { id: 9, outcome: Delivery::Delivered }]);
    assert_eq!(first_rx.try_recv().unwrap(), vec![5]);
    assert!(second_rx.try_recv().is_err());
}

#[test]
fn interleaved_registrations_and_strikings() {
    let mut hub = WebSocketService::new();
    let mut receivers: Vec<(u64, Receiver<Vec<u8>>)> = Vec::new();
    for round in 0..4u64 {
        for connection in 0..6u64 {
            let id = round * 10 + connection;
            let (tx, rx) = channel::<Vec<u8>>(4);
            assert!(hub.register(id, tx));
            receivers.push((id, rx));
            if connection % 2 == 1 {
                assert!(hub.unregister(id - 1));
            }
        }
        assert!(!hub.unregister(round * 10));
    }
    let live: Vec<u64> = (0..4u64).flat_map(|r| [r * 10 + 1, r * 10 + 3, r * 10 + 5]).collect();
    assert_eq!(hub.len(), live.len());
    let report = hub.send_message_to_clients(vec![1, 1]);
    assert_eq!(ids(&report), live);
    assert!(report.iter().all(|a| a.outcome == Delivery::Delivered));
    for (id, rx) in receivers.iter_mut() {
        if live.contains(id) {
            assert_eq!(rx.try_recv().unwrap(), vec![1, 1]);
        }
        assert!(rx.try_recv().is_err());
    }
}

#[test]
fn a_client_can_come_back_after_it_left() {
    let mut hub = WebSocketService::new();
    let (tx, rx) = channel::<Vec<u8>>(1);
    assert!(hub.register(1, tx));
    drop(rx);
    hub.send_message_to_clients(vec![0]);
    assert!(!hub.contains(1));
    let (tx, mut rx) = channel::<Vec<u8>>(1);
    assert!(hub.register(1, tx));
    hub.send_message_to_clients(vec![4]);
    assert_eq!(rx.try_recv().unwrap(), vec![4]);
}
