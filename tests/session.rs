use rust_amps::session::logon_reply_event;
use rust_amps::{
    get_payload, AmpsClient, AmpsError, ConnectAction, ConnectEvent, Diagnostic, FieldID, Message,
    MessageBuilder, RetryPolicy, SessionState,
};

const URI: &str = "tcp://127.0.0.1:9007/amps/fix";

fn logged_on(name: &str) -> AmpsClient {
    let mut c = AmpsClient::new(name, URI);
    assert!(matches!(c.connect(), ConnectAction::OpenTransport));
    assert!(matches!(c.on_connect_event(ConnectEvent::TransportOpened), ConnectAction::SendLogon(_)));
    assert!(matches!(c.on_connect_event(ConnectEvent::LogonAcked), ConnectAction::Done));
    assert_eq!(c.state(), SessionState::LoggedOn);
    c
}

/// Stands for the server: re-tags a published frame for one subscription.
fn forward(frame: &[u8], sub_id: u64) -> Vec<u8> {
    let m = Message::from_frame(frame).unwrap();
    let mut b = MessageBuilder::new();
    b.set_field(FieldID::AMPS_Command, "p").unwrap();
    b.set_field(FieldID::AMPS_Topic, &m.get_field(FieldID::AMPS_Topic).unwrap()).unwrap();
    b.set_field(FieldID::AMPS_SubscriptionId, &sub_id.to_string()).unwrap();
    b.set_payload(m.payload()).unwrap();
    b.finalize().unwrap().to_frame()
}

#[test]
fn logon_frame_carries_name_and_type() {
    let mut c = AmpsClient::new("rustClient", URI);
    assert_eq!(c.state(), SessionState::Disconnected);
    assert_eq!(c.name(), "rustClient");
    assert_eq!(c.uri(), URI);
    c.connect();
    assert_eq!(c.state(), SessionState::Connecting);
    let frame = match c.on_connect_event(ConnectEvent::TransportOpened) {
        ConnectAction::SendLogon(f) => f,
        other => panic!("unexpected {:?}", other),
    };
    let m = Message::from_frame(&frame).unwrap();
    assert_eq!(m.get_field(FieldID::AMPS_Command), Some("logon".to_string()));
    assert_eq!(m.get_field(FieldID::AMPS_ClientName), Some("rustClient".to_string()));
    assert_eq!(m.get_field(FieldID::AMPS_MessageType), Some("json".to_string()));
    assert_eq!(m.payload().len(), 0);
}

#[test]
fn send_while_disconnected_fails() {
    let mut c = AmpsClient::new("n", URI);
    let mut b = MessageBuilder::new();
    b.set_field(FieldID::AMPS_Command, "publish").unwrap();
    let m = b.finalize().unwrap();
    assert!(matches!(c.send(m), Err(AmpsError::NotConnected)));
    assert!(matches!(c.publish("orders", "x"), Err(AmpsError::NotConnected)));
    assert!(matches!(c.subscribe("orders"), Err(AmpsError::NotConnected)));
    assert_eq!(c.sent_count(), 0);
    assert_eq!(c.subscription_count(), 0);
}

#[test]
fn send_stamps_correlation_id() {
    let mut c = logged_on("n");
    let mut b = MessageBuilder::new();
    b.set_field(FieldID::AMPS_Command, "publish").unwrap();
    let frame = c.send(b.finalize().unwrap()).unwrap();
    let m = Message::from_frame(&frame).unwrap();
    assert_eq!(m.get_field(FieldID::AMPS_CorrelationId), Some("1".to_string()));
    let mut b = MessageBuilder::new();
    b.set_field(FieldID::AMPS_Command, "publish").unwrap();
    b.set_field(FieldID::AMPS_CorrelationId, "mine").unwrap();
    let frame = c.send(b.finalize().unwrap()).unwrap();
    let m = Message::from_frame(&frame).unwrap();
    assert_eq!(m.get_field(FieldID::AMPS_CorrelationId), Some("mine".to_string()));
    assert_eq!(c.sent_count(), 2);
    for _ in 0..10 {
        c.publish("t", "d").unwrap();
    }
    let frame = c.publish("t", "d").unwrap();
    let m = Message::from_frame(&frame).unwrap();
    assert_eq!(m.get_field(FieldID::AMPS_CorrelationId), Some("13".to_string()));
}

#[test]
fn publish_then_deliver_keeps_payload_bytes() {
    let mut publisher = logged_on("rust_publisher");
    let mut subscriber = logged_on("rust_subscriber");
    let (id, sub_frame) = subscriber.subscribe("orders").unwrap();
    let sm = Message::from_frame(&sub_frame).unwrap();
    assert_eq!(sm.get_field(FieldID::AMPS_Command), Some("subscribe".to_string()));
    assert_eq!(sm.get_field(FieldID::AMPS_Topic), Some("orders".to_string()));
    assert_eq!(sm.get_field(FieldID::AMPS_SubscriptionId), Some(id.to_string()));
    let frame = publisher.publish("orders", "35=D; 22=5; 55=NVDA.O").unwrap();
    let pm = Message::from_frame(&frame).unwrap();
    assert_eq!(pm.get_field(FieldID::AMPS_Command), Some("publish".to_string()));
    assert_eq!(pm.get_field(FieldID::AMPS_Topic), Some("orders".to_string()));
    assert_eq!(pm.get_field(FieldID::AMPS_MessageType), Some("json".to_string()));
    let delivered = forward(&frame, id);
    subscriber.deliver(&delivered).unwrap();
    let d = subscriber.take_delivery().unwrap();
    assert_eq!(d.subscription, id);
    assert_eq!(d.payload, b"35=D; 22=5; 55=NVDA.O".to_vec());
    assert_eq!(get_payload(&delivered).unwrap(), b"35=D; 22=5; 55=NVDA.O".to_vec());
    assert!(subscriber.take_delivery().is_none());
    assert!(subscriber.take_diagnostics().is_empty());
}

#[test]
fn delivery_after_unsubscribe_is_orphan() {
    let mut c = logged_on("n");
    let (id, _) = c.subscribe("orders").unwrap();
    let (other, _) = c.subscribe("trades").unwrap();
    assert_ne!(id, other);
    assert!(c.unsubscribe(id));
    assert!(!c.unsubscribe(id));
    assert_eq!(c.subscription_count(), 1);
    let mut b = MessageBuilder::new();
    b.set_field(FieldID::AMPS_Command, "p").unwrap();
    b.set_field(FieldID::AMPS_SubscriptionId, &id.to_string()).unwrap();
    b.set_payload(b"late").unwrap();
    c.deliver(&b.finalize().unwrap().to_frame()).unwrap();
    assert!(c.take_delivery().is_none());
    assert_eq!(c.take_diagnostics(), vec![Diagnostic::OrphanDelivery(id)]);
    assert!(c.take_diagnostics().is_empty());
}

#[test]
fn deliver_rejects_untagged_frames() {
    let mut c = logged_on("n");
    let mut b = MessageBuilder::new();
    b.set_field(FieldID::AMPS_Command, "p").unwrap();
    let untagged = b.finalize().unwrap().to_frame();
    assert!(matches!(c.deliver(&untagged), Err(AmpsError::MalformedFrame)));
    let mut b = MessageBuilder::new();
    b.set_field(FieldID::AMPS_Command, "p").unwrap();
    b.set_field(FieldID::AMPS_SubscriptionId, "12x").unwrap();
    assert!(matches!(c.deliver(&b.finalize().unwrap().to_frame()), Err(AmpsError::MalformedFrame)));
    let mut b = MessageBuilder::new();
    b.set_field(FieldID::AMPS_Command, "p").unwrap();
    b.set_field(FieldID::AMPS_SubscriptionId, "18446744073709551616").unwrap();
    assert!(matches!(c.deliver(&b.finalize().unwrap().to_frame()), Err(AmpsError::MalformedFrame)));
    assert!(matches!(c.deliver(&[1, 2, 3]), Err(AmpsError::MalformedFrame)));
    assert!(matches!(c.deliver(&[40, 0, 0]), Err(AmpsError::UnknownField)));
    assert!(c.take_diagnostics().is_empty());
    // the largest id still reads
    let mut b = MessageBuilder::new();
    b.set_field(FieldID::AMPS_Command, "p").unwrap();
    b.set_field(FieldID::AMPS_SubscriptionId, "18446744073709551615").unwrap();
    c.deliver(&b.finalize().unwrap().to_frame()).unwrap();
    assert_eq!(c.take_diagnostics(), vec![Diagnostic::OrphanDelivery(u64::MAX)]);
}

#[test]
fn close_twice_is_a_no_op() {
    let mut c = logged_on("n");
    let (a, _) = c.subscribe("x").unwrap();
    let (b, _) = c.subscribe("y").unwrap();
    assert_eq!(c.close(), vec![a, b]);
    assert_eq!(c.state(), SessionState::Disconnected);
    assert_eq!(c.subscription_count(), 0);
    assert_eq!(c.close(), Vec::<u64>::new());
    assert_eq!(c.state(), SessionState::Disconnected);
    assert_eq!(c.subscription_count(), 0);
    assert!(matches!(c.publish("x", "y"), Err(AmpsError::NotConnected)));
}

fn step(c: &mut AmpsClient, ev: ConnectEvent) -> ConnectAction {
    c.on_connect_event(ev)
}

#[test]
fn transport_failures_retry_with_backoff_then_fail() {
    let policy = RetryPolicy { max_attempts: 3, base_backoff_ms: 100 };
    let mut c = AmpsClient::with_retry_policy("n", URI, policy);
    assert!(matches!(c.connect(), ConnectAction::OpenTransport));
    assert!(matches!(c.connect(), ConnectAction::Ignored));
    assert!(matches!(step(&mut c, ConnectEvent::TransportFailed), ConnectAction::CloseTransport));
    assert!(matches!(step(&mut c, ConnectEvent::TransportFailed), ConnectAction::Ignored));
    assert!(matches!(step(&mut c, ConnectEvent::TransportClosed), ConnectAction::Wait(100)));
    assert!(matches!(step(&mut c, ConnectEvent::TransportClosed), ConnectAction::Ignored));
    assert!(matches!(step(&mut c, ConnectEvent::BackoffElapsed), ConnectAction::OpenTransport));
    assert!(matches!(step(&mut c, ConnectEvent::TransportOpened), ConnectAction::SendLogon(_)));
    assert!(matches!(step(&mut c, ConnectEvent::TimedOut), ConnectAction::CloseTransport));
    assert!(matches!(step(&mut c, ConnectEvent::TransportClosed), ConnectAction::Wait(200)));
    assert!(matches!(step(&mut c, ConnectEvent::BackoffElapsed), ConnectAction::OpenTransport));
    assert!(matches!(step(&mut c, ConnectEvent::TransportFailed), ConnectAction::CloseTransport));
    assert_eq!(c.state(), SessionState::Connecting);
    assert!(matches!(
        step(&mut c, ConnectEvent::TransportClosed),
        ConnectAction::Fail(AmpsError::TransportError)
    ));
    assert_eq!(c.state(), SessionState::Failed);
    assert!(matches!(step(&mut c, ConnectEvent::LogonAcked), ConnectAction::Ignored));
}

#[test]
fn timeouts_end_in_connect_timeout() {
    let policy = RetryPolicy { max_attempts: 1, base_backoff_ms: 5 };
    let mut c = AmpsClient::with_retry_policy("n", URI, policy);
    c.connect();
    step(&mut c, ConnectEvent::TransportOpened);
    assert!(matches!(step(&mut c, ConnectEvent::TimedOut), ConnectAction::CloseTransport));
    assert!(matches!(
        step(&mut c, ConnectEvent::TransportClosed),
        ConnectAction::Fail(AmpsError::ConnectTimeout)
    ));
    assert_eq!(c.state(), SessionState::Failed);
    // a failed session connects again only after it is closed
    assert!(matches!(c.connect(), ConnectAction::Ignored));
    assert_eq!(c.state(), SessionState::Failed);
    assert!(c.close().is_empty());
    assert_eq!(c.state(), SessionState::Disconnected);
    assert!(matches!(c.connect(), ConnectAction::OpenTransport));
    assert_eq!(c.state(), SessionState::Connecting);
}

#[test]
fn backoff_doubles_and_saturates() {
    let policy = RetryPolicy { max_attempts: 100, base_backoff_ms: u64::MAX / 4 };
    let mut c = AmpsClient::with_retry_policy("n", URI, policy);
    c.connect();
    let mut waits = Vec::new();
    for _ in 0..4 {
        assert!(matches!(step(&mut c, ConnectEvent::TransportFailed), ConnectAction::CloseTransport));
        match step(&mut c, ConnectEvent::TransportClosed) {
            ConnectAction::Wait(ms) => waits.push(ms),
            other => panic!("unexpected {:?}", other),
        }
        step(&mut c, ConnectEvent::BackoffElapsed);
    }
    assert_eq!(waits, vec![u64::MAX / 4, u64::MAX / 4 * 2, u64::MAX / 4 * 4, u64::MAX]);
}

#[test]
fn logon_rejection_carries_reason() {
    let mut c = AmpsClient::new("n", URI);
    c.connect();
    step(&mut c, ConnectEvent::TransportOpened);
    assert!(matches!(
        step(&mut c, ConnectEvent::LogonRejected("bad credentials".to_string())),
        ConnectAction::CloseTransport
    ));
    // a refused logon is not tried again, whatever the policy allows
    match step(&mut c, ConnectEvent::TransportClosed) {
        ConnectAction::Fail(AmpsError::LogonRejected(r)) => assert_eq!(r, "bad credentials"),
        other => panic!("unexpected {:?}", other),
    }
    assert_eq!(c.state(), SessionState::Failed);
}

#[test]
fn transport_loss_fails_logged_on_session() {
    let mut c = logged_on("n");
    assert!(matches!(c.connect(), ConnectAction::Done));
    assert!(matches!(
        c.on_connect_event(ConnectEvent::TransportFailed),
        ConnectAction::CloseTransport
    ));
    assert_eq!(c.state(), SessionState::Failed);
    assert!(matches!(c.publish("x", "y"), Err(AmpsError::NotConnected)));
}

#[test]
fn overlong_name_fails_connect() {
    let name = "n".repeat(4097);
    let mut c = AmpsClient::new(&name, URI);
    assert!(matches!(c.connect(), ConnectAction::Fail(AmpsError::FieldTooLong)));
    assert_eq!(c.state(), SessionState::Failed);
}

#[test]
fn handler_timeout_flags_subscription() {
    let mut c = logged_on("n");
    let (id, _) = c.subscribe("x").unwrap();
    assert!(c.report_handler_timeout(id));
    assert!(!c.report_handler_timeout(id + 100));
    assert_eq!(c.take_diagnostics(), vec![Diagnostic::HandlerTimeout(id)]);
    assert_eq!(c.subscription_count(), 1);
}

#[test]
fn subscription_ids_are_fresh_and_decimal() {
    let mut c = logged_on("n");
    for expected in 0..12u64 {
        assert_eq!(c.next_subscription_id(), expected);
        let (id, frame) = c.subscribe("t").unwrap();
        assert_eq!(id, expected);
        let m = Message::from_frame(&frame).unwrap();
        assert_eq!(m.get_field(FieldID::AMPS_SubscriptionId), Some(expected.to_string()));
    }
    assert!(matches!(c.subscribe(&"t".repeat(5000)), Err(AmpsError::FieldTooLong)));
    assert_eq!(c.subscription_count(), 12);
}

fn reply(status: Option<&str>, reason: Option<&str>) -> Vec<u8> {
    let mut b = MessageBuilder::new();
    b.set_field(FieldID::AMPS_Command, "ack").unwrap();
    if let Some(s) = status {
        b.set_field(FieldID::AMPS_Status, s).unwrap();
    }
    if let Some(r) = reason {
        b.set_field(FieldID::AMPS_Reason, r).unwrap();
    }
    b.finalize().unwrap().to_frame()
}

#[test]
fn logon_reply_is_read_from_status_and_reason() {
    assert!(matches!(logon_reply_event(&reply(Some("success"), None)), ConnectEvent::LogonAcked));
    match logon_reply_event(&reply(Some("failure"), Some("not entitled"))) {
        ConnectEvent::LogonRejected(r) => assert_eq!(r, "not entitled"),
        other => panic!("unexpected {:?}", other),
    }
    match logon_reply_event(&reply(Some("successful"), None)) {
        ConnectEvent::LogonRejected(r) => assert_eq!(r, ""),
        other => panic!("unexpected {:?}", other),
    }
    match logon_reply_event(&reply(None, Some("why"))) {
        ConnectEvent::LogonRejected(r) => assert_eq!(r, "why"),
        other => panic!("unexpected {:?}", other),
    }
    assert!(matches!(logon_reply_event(&[0, 0]), ConnectEvent::TransportFailed));
}

#[test]
fn full_inbox_hands_frame_back() {
    let mut c = logged_on("n");
    let (id, _) = c.subscribe("x").unwrap();
    let mut b = MessageBuilder::new();
    b.set_field(FieldID::AMPS_Command, "p").unwrap();
    b.set_field(FieldID::AMPS_SubscriptionId, &id.to_string()).unwrap();
    b.set_payload(b"m").unwrap();
    let frame = b.finalize().unwrap().to_frame();
    for _ in 0..rust_amps::session::INBOX_CAPACITY {
        c.deliver(&frame).unwrap();
    }
    assert!(matches!(c.deliver(&frame), Err(AmpsError::InboxFull)));
    assert!(c.take_diagnostics().is_empty());
    let mut taken = 0;
    while let Some(d) = c.take_delivery() {
        assert_eq!(d.payload, b"m".to_vec());
        taken += 1;
    }
    assert_eq!(taken, 1024);
    // the refused frame is handed in again and delivered once
    c.deliver(&frame).unwrap();
    assert!(c.take_delivery().is_some());
    assert!(c.take_delivery().is_none());
}

#[test]
fn length_errors_come_before_session_state() {
    let mut c = AmpsClient::new("n", URI);
    let long = "t".repeat(4097);
    assert!(matches!(c.publish(&long, "d"), Err(AmpsError::FieldTooLong)));
    assert!(matches!(c.subscribe(&long), Err(AmpsError::FieldTooLong)));
    assert!(matches!(c.publish("t", "d"), Err(AmpsError::NotConnected)));
    assert!(matches!(c.subscribe("t"), Err(AmpsError::NotConnected)));
    assert_eq!(c.sent_count(), 0);
    assert_eq!(c.subscription_count(), 0);
    assert_eq!(c.next_subscription_id(), 0);
}

#[test]
fn send_refuses_message_without_command() {
    let mut c = logged_on("n");
    let m = Message::from_frame(&[1, 0, 1, b't', 255, 0, 0, 0, 0]).unwrap();
    assert_eq!(m.get_field(FieldID::AMPS_Command), None);
    assert!(matches!(c.send(m), Err(AmpsError::MissingCommand)));
    assert_eq!(c.sent_count(), 0);
    let mut d = AmpsClient::new("n", URI);
    let m = Message::from_frame(&[1, 0, 1, b't', 255, 0, 0, 0, 0]).unwrap();
    assert!(matches!(d.send(m), Err(AmpsError::NotConnected)));
}
