use jsworkers::broker::{delivery_result, BrokerError, Message, MessageBroker};
use std::sync::mpsc::channel;

#[test]
fn test_broker() {
    let mut broker = MessageBroker::new();

    // Create the receiver and sender for two channels.
    let (tx1, rx1) = channel::<Message>();
    let (tx2, rx2) = channel::<Message>();

    broker.add_actor("actor1", tx1.clone()).unwrap();
    assert!(broker.add_actor("actor1", tx1.clone()).is_err());

    broker.add_actor("actor2", tx2.clone()).unwrap();

    // Check that we can send a message.
    broker.send_message("actor1", Message::AddWorker).unwrap();
    let msg = rx1.recv();
    assert_eq!(msg.unwrap(), Message::AddWorker);

    // Check that we can broadcast a message.
    broker.broadcast_message(Message::Shutdown);
    let msg = rx1.recv();
    assert_eq!(msg.unwrap(), Message::Shutdown);
    let msg = rx2.recv();
    assert_eq!(msg.unwrap(), Message::Shutdown);

    // Remove the actors.
    broker.remove_actor("actor1").unwrap();
    broker.remove_actor("actor2").unwrap();
    assert!(broker.remove_actor("actor1").is_err());
}

#[test]
fn broker_errors_name_their_cause() {
    let mut broker = MessageBroker::new();
    let (tx, rx) = channel::<Message>();
    assert_eq!(broker.send_message("nobody", Message::AddWorker), Err(BrokerError::NoSuchTarget));
    assert_eq!(broker.remove_actor("nobody"), Err(BrokerError::NoSuchTarget));
    broker.add_actor("a", tx.clone()).unwrap();
    assert_eq!(broker.add_actor("a", tx), Err(BrokerError::DuplicateTarget));
    drop(rx);
    assert_eq!(broker.send_message("a", Message::RemoveWorker), Err(BrokerError::SendingError));
}

#[test]
fn broadcast_skips_closed_channels() {
    let mut broker = MessageBroker::new();
    let (tx1, rx1) = channel::<Message>();
    let (tx2, rx2) = channel::<Message>();
    broker.add_actor("gone", tx1).unwrap();
    broker.add_actor("here", tx2).unwrap();
    drop(rx1);
    broker.broadcast_message(Message::RemoveWorker);
    assert_eq!(rx2.recv().unwrap(), Message::RemoveWorker);
}

#[test]
fn register_then_unregister_frees_the_name() {
    let mut broker = MessageBroker::new();
    let (tx, rx) = channel::<Message>();
    broker.add_actor("workers", tx.clone()).unwrap();
    broker.remove_actor("workers").unwrap();
    broker.add_actor("workers", tx).unwrap();
    broker.send_message("workers", Message::Shutdown).unwrap();
    assert_eq!(rx.recv().unwrap(), Message::Shutdown);
}

#[test]
fn message_names() {
    assert_eq!(Message::AddWorker.name(), "AddWorker");
    assert_eq!(Message::RemoveWorker.name(), "RemoveWorker");
    assert_eq!(Message::Shutdown.name(), "Shutdown");
}

#[test]
fn delivery_outcomes() {
    assert_eq!(delivery_result(true), Ok(()));
    assert_eq!(delivery_result(false), Err(BrokerError::SendingError));
}
