use chat_transport::broadcast::Received;
use chat_transport::codec::{MalformedMessage, MessageField};
use chat_transport::handshake::{HandshakeRequest, RetryPolicy};
use chat_transport::message::ChatMessage;
use chat_transport::sending::{SendError, SendGate, WriteOutcome};
use chat_transport::websocket::{
    AttemptFailure, ConnectionState, HandshakeFailure, HandshakeOutcome, HandshakeStep, LoopStep,
    ReadEvent, WebSocketClient,
};

fn alice() -> ChatMessage {
    ChatMessage {
        username: "alice".to_string(),
        content: "hi".to_string(),
        message_type: "text".to_string(),
        sender_id: 1,
        receiver_id: 2,
        timestamp: 1690000000,
        target_type: "person".to_string(),
        direction: "send".to_string(),
    }
}

fn client() -> WebSocketClient {
    WebSocketClient::new("ws://3ye.co:32000".to_string(), "tok".to_string())
}

fn connected() -> WebSocketClient {
    let mut client = client();
    assert!(client.connect().is_ok());
    assert_eq!(client.on_handshake(HandshakeOutcome::Established), HandshakeStep::Connected);
    client
}

fn refused(n: u32) -> HandshakeOutcome {
    HandshakeOutcome::Failed(AttemptFailure::ConnectFailed(format!("refused {}", n)))
}

fn retry_request(step: HandshakeStep) -> HandshakeRequest {
    match step {
        HandshakeStep::Retry { delay_secs, request } => {
            assert_eq!(delay_secs, 1);
            request
        }
        other => panic!("no retry: {:?}", other),
    }
}

#[test]
fn new_client_is_disconnected() {
    let client = client();
    assert!(!client.is_connected());
    assert_eq!(client.state(), ConnectionState::Disconnected);
    assert!(client.send_gate().is_none());
    assert!(client.can_subscribe());
}

#[test]
fn send_is_refused_before_any_connect() {
    let client = client();
    assert_eq!(client.send_message(alice()), Err(SendError::NotConnected));
}

#[test]
fn send_is_refused_while_connecting() {
    let mut client = client();
    assert!(client.connect().is_ok());
    assert_eq!(client.state(), ConnectionState::Connecting);
    assert!(!client.is_connected());
    assert_eq!(client.send_message(alice()), Err(SendError::NotConnected));
    let _ = client.on_handshake(refused(1));
    assert_eq!(client.send_message(alice()), Err(SendError::NotConnected));
}

#[test]
fn send_is_refused_again_after_disconnect() {
    let mut client = connected();
    assert!(client.send_message(alice()).is_ok());
    client.disconnect();
    assert_eq!(client.send_message(alice()), Err(SendError::NotConnected));
    assert!(client.send_gate().is_none());
}

#[test]
fn send_gives_the_wire_form_as_one_frame() {
    let client = connected();
    let frame = client.send_message(alice());
    assert_eq!(
        frame,
        Ok("{\"username\":\"alice\",\"content\":\"hi\",\"message_type\":\"text\",\"sender_id\":1,\"receiver_id\":2,\"timestamp\":1690000000,\"target_type\":\"person\",\"direction\":\"send\"}".to_string())
    );
    let keeper = client.send_gate().unwrap();
    assert_eq!(Ok(keeper.frame(&alice())), frame);
}

#[test]
fn failed_write_comes_back_as_transport_error_and_changes_nothing() {
    let client = connected();
    assert_eq!(SendGate::settle(WriteOutcome::Written), Ok(()));
    assert_eq!(
        SendGate::settle(WriteOutcome::Failed("broken pipe".to_string())),
        Err(SendError::TransportError("broken pipe".to_string()))
    );
    assert!(client.is_connected());
    assert!(client.send_message(alice()).is_ok());
}

#[test]
fn connect_hands_out_the_first_request() {
    let mut client = client();
    let request = client.connect().unwrap();
    assert_eq!(request.uri, "ws://3ye.co:32000/ws?token=tok");
    assert_eq!(request.host, "3ye.co:32000");
    assert_eq!(request.key.len(), 24);
    assert_eq!(client.state(), ConnectionState::Connecting);
}

#[test]
fn first_success_connects() {
    let mut client = client();
    let _ = client.connect().unwrap();
    assert_eq!(client.on_handshake(HandshakeOutcome::Established), HandshakeStep::Connected);
    assert!(client.is_connected());
    assert_eq!(client.state(), ConnectionState::Connected);
    assert!(client.send_gate().is_some());
}

#[test]
fn success_after_two_failures_connects() {
    let mut client = client();
    let first = client.connect().unwrap();
    let second = retry_request(client.on_handshake(refused(1)));
    let third = retry_request(client.on_handshake(refused(2)));
    assert_eq!(second.uri, first.uri);
    assert_eq!(third.uri, first.uri);
    assert_eq!(second.host, first.host);
    assert_eq!(third.host, first.host);
    assert!(first.key != second.key || second.key != third.key);
    assert_eq!(client.on_handshake(HandshakeOutcome::Established), HandshakeStep::Connected);
    assert!(client.is_connected());
}

#[test]
fn three_failures_end_the_connect_without_a_fourth_attempt() {
    let mut client = client();
    let _ = client.connect().unwrap();
    let _ = retry_request(client.on_handshake(refused(1)));
    assert_eq!(client.state(), ConnectionState::Connecting);
    let _ = retry_request(client.on_handshake(refused(2)));
    assert_eq!(client.state(), ConnectionState::Connecting);
    let last = client.on_handshake(HandshakeOutcome::Failed(AttemptFailure::UpgradeRejected(
        "HTTP 403".to_string(),
    )));
    assert_eq!(
        last,
        HandshakeStep::Failed(HandshakeFailure::Exhausted(AttemptFailure::UpgradeRejected(
            "HTTP 403".to_string()
        )))
    );
    assert_eq!(client.state(), ConnectionState::Disconnected);
    assert!(!client.is_connected());
    assert_eq!(client.on_handshake(refused(4)), HandshakeStep::NotConnecting);
    assert_eq!(client.on_handshake(HandshakeOutcome::Established), HandshakeStep::NotConnecting);
    assert_eq!(client.state(), ConnectionState::Disconnected);
}

#[test]
fn connect_can_be_tried_again_after_it_failed() {
    let mut client = client();
    let _ = client.connect().unwrap();
    let _ = client.on_handshake(refused(1));
    let _ = client.on_handshake(refused(2));
    let _ = client.on_handshake(refused(3));
    assert!(client.connect().is_ok());
    let _ = retry_request(client.on_handshake(refused(1)));
    assert_eq!(client.on_handshake(HandshakeOutcome::Established), HandshakeStep::Connected);
}

#[test]
fn connect_on_a_connected_client_fails_at_once() {
    let mut client = connected();
    assert_eq!(client.connect(), Err(HandshakeFailure::NotDisconnected));
    assert!(client.is_connected());
    assert!(client.send_message(alice()).is_ok());
}

#[test]
fn connect_while_connecting_fails_at_once() {
    let mut client = client();
    let _ = client.connect().unwrap();
    let _ = client.on_handshake(refused(1));
    assert_eq!(client.connect(), Err(HandshakeFailure::NotDisconnected));
    let _ = retry_request(client.on_handshake(refused(2)));
    assert!(matches!(client.on_handshake(refused(3)), HandshakeStep::Failed(_)));
}

#[test]
fn connect_with_a_malformed_url_fails_and_stays_disconnected() {
    let mut client = WebSocketClient::new("not a url".to_string(), "tok".to_string());
    assert_eq!(client.connect(), Err(HandshakeFailure::MalformedUrl));
    assert_eq!(client.state(), ConnectionState::Disconnected);
    assert_eq!(client.on_handshake(HandshakeOutcome::Established), HandshakeStep::NotConnecting);
    assert!(!client.is_connected());
}

#[test]
fn handshake_result_without_a_connect_is_ignored() {
    let mut client = client();
    assert_eq!(client.on_handshake(HandshakeOutcome::Established), HandshakeStep::NotConnecting);
    assert_eq!(client.state(), ConnectionState::Disconnected);
    let mut client = connected();
    assert_eq!(client.on_handshake(refused(1)), HandshakeStep::NotConnecting);
    assert!(client.is_connected());
}

#[test]
fn disconnect_twice_leaves_the_client_disconnected() {
    let mut client = connected();
    client.disconnect();
    assert_eq!(client.state(), ConnectionState::Disconnected);
    client.disconnect();
    assert_eq!(client.state(), ConnectionState::Disconnected);
    assert!(!client.is_connected());
    assert!(client.connect().is_ok());
}

#[test]
fn disconnect_is_safe_in_every_state() {
    let mut client = client();
    client.disconnect();
    assert_eq!(client.state(), ConnectionState::Disconnected);
    let _ = client.connect().unwrap();
    client.disconnect();
    assert_eq!(client.state(), ConnectionState::Disconnected);
    assert_eq!(client.on_handshake(HandshakeOutcome::Established), HandshakeStep::NotConnecting);
    assert!(!client.is_connected());
}

#[test]
fn disconnect_keeps_the_subscribers() {
    let mut client = connected();
    let handle = client.get_message_receiver();
    assert_eq!(client.on_read(ReadEvent::Text(alice().encode())), LoopStep::Delivered);
    client.disconnect();
    assert_eq!(client.subscribers().receive(&handle), Received::Message(alice()));
    let _ = client.connect().unwrap();
    let _ = client.on_handshake(HandshakeOutcome::Established);
    assert_eq!(client.on_read(ReadEvent::Text(alice().encode())), LoopStep::Delivered);
    assert_eq!(client.subscribers().receive(&handle), Received::Message(alice()));
}

#[test]
fn received_message_goes_to_every_subscriber() {
    let mut client = connected();
    let a = client.get_message_receiver();
    let b = client.get_message_receiver();
    let step = client.on_read(ReadEvent::Text(alice().encode()));
    assert_eq!(step, LoopStep::Delivered);
    assert!(step.keeps_reading());
    assert_eq!(client.subscribers().receive(&a), Received::Message(alice()));
    assert_eq!(client.subscribers().receive(&b), Received::Message(alice()));
    assert_eq!(client.subscribers().receive(&a), Received::Empty);
}

#[test]
fn malformed_frame_does_not_end_the_loop() {
    let mut client = connected();
    let handle = client.get_message_receiver();
    let step = client.on_read(ReadEvent::Text("not-json".to_string()));
    assert_eq!(step, LoopStep::Malformed(MalformedMessage::Syntax));
    assert!(step.keeps_reading());
    assert!(client.is_connected());
    assert_eq!(client.subscribers().receive(&handle), Received::Empty);
    let step = client.on_read(ReadEvent::Text(alice().encode()));
    assert_eq!(step, LoopStep::Delivered);
    assert_eq!(client.subscribers().receive(&handle), Received::Message(alice()));
}

#[test]
fn frame_with_a_missing_field_is_dropped() {
    let mut client = connected();
    let handle = client.get_message_receiver();
    let step = client.on_read(ReadEvent::Text("{\"username\":\"alice\"}".to_string()));
    assert_eq!(step, LoopStep::Malformed(MalformedMessage::Field(MessageField::Content)));
    assert!(step.keeps_reading());
    assert_eq!(client.subscribers().receive(&handle), Received::Empty);
}

#[test]
fn frame_that_is_no_text_is_skipped() {
    let mut client = connected();
    let handle = client.get_message_receiver();
    let step = client.on_read(ReadEvent::Other);
    assert_eq!(step, LoopStep::Skipped);
    assert!(step.keeps_reading());
    assert!(client.is_connected());
    assert_eq!(client.subscribers().receive(&handle), Received::Empty);
}

#[test]
fn read_error_ends_the_connection() {
    let mut client = connected();
    let step = client.on_read(ReadEvent::Failed("connection reset".to_string()));
    assert_eq!(step, LoopStep::Stop);
    assert!(!step.keeps_reading());
    assert_eq!(client.state(), ConnectionState::Disconnected);
    assert_eq!(client.send_message(alice()), Err(SendError::NotConnected));
    assert!(client.send_gate().is_none());
}

#[test]
fn end_of_stream_ends_the_connection() {
    let mut client = connected();
    assert_eq!(client.on_read(ReadEvent::Ended), LoopStep::Stop);
    assert_eq!(client.state(), ConnectionState::Disconnected);
    assert!(client.connect().is_ok());
}

#[test]
fn loop_of_a_connection_that_is_gone_stops_without_delivering() {
    let mut client = connected();
    let handle = client.get_message_receiver();
    client.disconnect();
    assert_eq!(client.on_read(ReadEvent::Text(alice().encode())), LoopStep::Stop);
    assert_eq!(client.subscribers().receive(&handle), Received::Empty);
    let _ = client.connect().unwrap();
    assert_eq!(client.on_read(ReadEvent::Text(alice().encode())), LoopStep::Stop);
    assert_eq!(client.state(), ConnectionState::Connecting);
}

#[test]
fn subscriber_of_the_client_lags_to_the_hundred_most_recent() {
    let mut client = connected();
    let handle = client.get_message_receiver();
    for n in 0..150 {
        let mut message = alice();
        message.timestamp = n;
        assert_eq!(client.on_read(ReadEvent::Text(message.encode())), LoopStep::Delivered);
    }
    let held = client.subscribers().drain(&handle);
    assert_eq!(held.len(), 100);
    assert_eq!(held[0].timestamp, 50);
    assert_eq!(held[99].timestamp, 149);
}

#[test]
fn standard_policy_is_three_attempts_one_second_apart() {
    assert_eq!(RetryPolicy::standard(), RetryPolicy { max_attempts: 3, delay_secs: 1 });
}

#[test]
fn policy_of_one_attempt_gives_up_at_the_first_failure() {
    let policy = RetryPolicy { max_attempts: 1, delay_secs: 9 };
    let mut client = WebSocketClient::with_policy("ws://h:1".to_string(), "t".to_string(), policy);
    let _ = client.connect().unwrap();
    assert_eq!(
        client.on_handshake(refused(1)),
        HandshakeStep::Failed(HandshakeFailure::Exhausted(AttemptFailure::ConnectFailed(
            "refused 1".to_string()
        )))
    );
    assert_eq!(client.state(), ConnectionState::Disconnected);
}

#[test]
fn policy_of_no_attempt_still_makes_the_first() {
    let policy = RetryPolicy { max_attempts: 0, delay_secs: 0 };
    let mut client = WebSocketClient::with_policy("ws://h:1".to_string(), "t".to_string(), policy);
    assert!(client.connect().is_ok());
    assert_eq!(client.state(), ConnectionState::Connecting);
    assert!(matches!(client.on_handshake(refused(1)), HandshakeStep::Failed(_)));
    assert!(client.connect().is_ok());
    assert_eq!(client.on_handshake(HandshakeOutcome::Established), HandshakeStep::Connected);
}

#[test]
fn policy_sets_the_number_of_attempts_and_the_delay() {
    let policy = RetryPolicy { max_attempts: 5, delay_secs: 7 };
    let mut client = WebSocketClient::with_policy("ws://h:1".to_string(), "t".to_string(), policy);
    let _ = client.connect().unwrap();
    for n in 1..5 {
        match client.on_handshake(refused(n)) {
            HandshakeStep::Retry { delay_secs, request } => {
                assert_eq!(delay_secs, 7);
                assert_eq!(request.uri, "ws://h:1/ws?token=t");
                assert_eq!(request.host, "h:1");
            }
            other => panic!("no retry after failure {}: {:?}", n, other),
        }
        assert_eq!(client.state(), ConnectionState::Connecting);
    }
    assert_eq!(
        client.on_handshake(refused(5)),
        HandshakeStep::Failed(HandshakeFailure::Exhausted(AttemptFailure::ConnectFailed(
            "refused 5".to_string()
        )))
    );
    assert_eq!(client.on_handshake(refused(6)), HandshakeStep::NotConnecting);
}
