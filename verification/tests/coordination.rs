use ddns4cf::scheduler::{notify_action, NotifyAction, NotifyEvent};

#[test]
fn the_guard_admits_exactly_one_holder() {
    let guard = tokio::sync::Mutex::new(0u32);
    let first = guard.try_lock();
    assert!(first.is_ok(), "a free guard is acquired");
    let second = guard.try_lock();
    assert!(second.is_err(), "a held guard reports unavailable at once");
    drop(first);
    assert!(guard.try_lock().is_ok(), "a released guard is acquired again");
}

#[test]
fn every_receiver_observes_the_termination_signal() {
    let (tx, mut rx1) = tokio::sync::broadcast::channel::<()>(4);
    let mut rx2 = tx.subscribe();
    tx.send(()).expect("receivers are subscribed");
    assert!(rx1.try_recv().is_ok());
    assert!(rx2.try_recv().is_ok());
}

#[test]
fn a_closed_channel_reads_as_termination() {
    let (tx, mut rx) = tokio::sync::broadcast::channel::<()>(1);
    drop(tx);
    let event = match rx.try_recv() {
        Err(tokio::sync::broadcast::error::TryRecvError::Closed) => NotifyEvent::Closed,
        _ => panic!("a channel with no sender left reports closed"),
    };
    assert!(matches!(notify_action(&event), NotifyAction::Stop));
}

#[test]
fn a_lagged_receiver_is_not_fatal() {
    let (tx, mut rx) = tokio::sync::broadcast::channel::<u32>(1);
    tx.send(1).expect("subscribed");
    tx.send(2).expect("subscribed");
    let event = match rx.try_recv() {
        Err(tokio::sync::broadcast::error::TryRecvError::Lagged(_)) => NotifyEvent::Lagged,
        _ => panic!("an overrun receiver reports lag"),
    };
    assert!(!matches!(notify_action(&event), NotifyAction::Stop));
    assert!(matches!(notify_action(&event), NotifyAction::Continue));
}
