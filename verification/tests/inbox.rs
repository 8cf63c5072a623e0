use std::time::Duration;

use bitpeer::networking::inbox::{Inbox, RecvStep};
use bitpeer::networking::message::NetworkMessage;

#[test]
fn new_inbox_is_connected_and_empty() {
    let mut inbox = Inbox::new();
    assert!(inbox.is_connected());
    assert!(matches!(inbox.recv("pong", None, false), RecvStep::Wait(None)));
}

#[test]
fn message_is_taken_out_under_its_command() {
    let mut inbox = Inbox::new();
    inbox.deliver(NetworkMessage::Verack);
    assert!(matches!(inbox.recv("version", None, false), RecvStep::Wait(None)));
    assert!(matches!(
        inbox.recv("verack", None, false),
        RecvStep::Done(Some(NetworkMessage::Verack))
    ));
    assert!(matches!(inbox.recv("verack", None, false), RecvStep::Wait(None)));
}

#[test]
fn newest_message_is_taken_out_first() {
    let mut inbox = Inbox::new();
    inbox.deliver(NetworkMessage::Pong(1));
    inbox.deliver(NetworkMessage::MemPool);
    inbox.deliver(NetworkMessage::Pong(2));
    for nonce in vec![2, 1] {
        assert!(matches!(
            inbox.recv("pong", None, false),
            RecvStep::Done(Some(NetworkMessage::Pong(n))) if n == nonce
        ));
    }
    assert!(matches!(inbox.recv("pong", None, false), RecvStep::Wait(None)));
    assert!(matches!(
        inbox.recv("mempool", None, false),
        RecvStep::Done(Some(NetworkMessage::MemPool))
    ));
}

#[test]
fn wait_is_for_the_timeout() {
    let mut inbox = Inbox::new();
    let timeout = Some(Duration::from_secs(7));
    assert!(matches!(inbox.recv("tx", timeout, false), RecvStep::Wait(t) if t == timeout));
    assert!(matches!(inbox.recv("tx", timeout, true), RecvStep::Done(None)));
}

#[test]
fn timeout_ends_the_wait_though_a_message_is_there() {
    let mut inbox = Inbox::new();
    let timeout = Some(Duration::from_secs(7));
    inbox.deliver(NetworkMessage::Pong(3));
    assert!(matches!(inbox.recv("pong", timeout, true), RecvStep::Done(None)));
    assert!(matches!(
        inbox.recv("pong", timeout, false),
        RecvStep::Done(Some(NetworkMessage::Pong(3)))
    ));
}

#[test]
fn without_a_timeout_nothing_times_out() {
    let mut inbox = Inbox::new();
    assert!(matches!(inbox.recv("pong", None, true), RecvStep::Wait(None)));
    inbox.deliver(NetworkMessage::Pong(4));
    assert!(matches!(
        inbox.recv("pong", None, true),
        RecvStep::Done(Some(NetworkMessage::Pong(4)))
    ));
}

#[test]
fn lost_connection_stays_lost() {
    let mut inbox = Inbox::new();
    inbox.deliver(NetworkMessage::Pong(5));
    inbox.disconnect();
    assert!(!inbox.is_connected());
    inbox.deliver(NetworkMessage::Verack);
    assert!(!inbox.is_connected());
    assert!(matches!(
        inbox.recv("pong", None, false),
        RecvStep::Done(Some(NetworkMessage::Pong(5)))
    ));
}
