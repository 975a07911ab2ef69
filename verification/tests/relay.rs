use domo::color::{Color, ColorMode};
use domo::messages::{Config, Dispatch, MsgConnect, MsgServer};
use domo::socket::{
    clocks_agree, BackoffState, ConnectionState, Delivery, Inbound, RelayAction, RelayEvent,
    Socket, INITIAL_DELAY, MAX_DELAY, TIME_TOLERANCE,
};

fn config() -> Config {
    Config { name: "Living room".to_string(), serial: "0042".to_string() }
}

fn message(kind: &str) -> MsgServer {
    MsgServer { message: kind.to_string(), name: None, timestamp: None, value: None }
}

fn time(timestamp: i64) -> MsgServer {
    MsgServer { timestamp: Some(timestamp), ..message("time") }
}

fn connected() -> Socket {
    let (mut socket, _) = Socket::connect(config());
    assert_eq!(socket.handle(RelayEvent::Opened), RelayAction::Greet);
    socket
}

#[test]
fn relay_starts_by_connecting() {
    let (socket, action) = Socket::connect(config());
    assert_eq!(action, RelayAction::Connect);
    assert_eq!(socket.state(), ConnectionState::Connecting);
    assert_eq!(socket.delay(), 1);
    assert_eq!(socket.outbound(), Delivery::Discard);
}

#[test]
fn backoff_sequence() {
    let (mut socket, _) = Socket::connect(config());
    // The wait in force at each of three failures in a row is 1, 2, 4;
    // each failure doubles it, and the doubled wait is the one slept.
    assert_eq!(socket.delay(), 1);
    assert_eq!(socket.handle(RelayEvent::Failed), RelayAction::Wait(2));
    assert_eq!(socket.state(), ConnectionState::Disconnected);
    assert_eq!(socket.handle(RelayEvent::RetryDue), RelayAction::Connect);
    assert_eq!(socket.state(), ConnectionState::Connecting);
    assert_eq!(socket.delay(), 2);
    assert_eq!(socket.handle(RelayEvent::Failed), RelayAction::Wait(4));
    assert_eq!(socket.handle(RelayEvent::RetryDue), RelayAction::Connect);
    assert_eq!(socket.delay(), 4);
    assert_eq!(socket.handle(RelayEvent::Failed), RelayAction::Wait(8));
    assert_eq!(socket.handle(RelayEvent::RetryDue), RelayAction::Connect);
    // A success resets the wait: the next failure finds 1 in force, not 8.
    assert_eq!(socket.handle(RelayEvent::Opened), RelayAction::Greet);
    assert_eq!(socket.delay(), 1);
    assert_eq!(socket.handle(RelayEvent::Failed), RelayAction::Wait(2));
}

#[test]
fn backoff_is_capped_at_a_minute() {
    let mut backoff = BackoffState::new();
    let mut waits = Vec::new();
    for _ in 0..9 {
        waits.push(backoff.fail());
    }
    assert_eq!(waits, vec![2, 4, 8, 16, 32, 60, 60, 60, 60]);
    assert_eq!(backoff.delay(), MAX_DELAY);
    backoff.succeed();
    assert_eq!(backoff.delay(), INITIAL_DELAY);
    assert_eq!(BackoffState::new().delay(), 1);
}

#[test]
fn relay_never_stops_retrying() {
    let (mut socket, _) = Socket::connect(config());
    for _ in 0..100 {
        match socket.handle(RelayEvent::Failed) {
            RelayAction::Wait(seconds) => assert!(1 <= seconds && seconds <= 60),
            other => panic!("unexpected {:?}", other),
        }
        assert_eq!(socket.handle(RelayEvent::RetryDue), RelayAction::Connect);
    }
}

#[test]
fn closed_connection_waits_without_doubling() {
    let mut socket = connected();
    assert_eq!(socket.handle(RelayEvent::Closed), RelayAction::Wait(1));
    assert_eq!(socket.state(), ConnectionState::Disconnected);
    assert_eq!(socket.handle(RelayEvent::RetryDue), RelayAction::Connect);
}

#[test]
fn retry_is_due_only_while_disconnected() {
    let mut socket = connected();
    assert_eq!(socket.handle(RelayEvent::RetryDue), RelayAction::Nothing);
    assert_eq!(socket.state(), ConnectionState::ConnectedUnverified);
}

#[test]
fn hello_names_the_device() {
    let socket = connected();
    assert_eq!(
        socket.hello(),
        MsgConnect {
            message: "connect".to_string(),
            name: "Living room".to_string(),
            serial: "0042".to_string(),
        }
    );
    assert_eq!(MsgConnect::new(&config()), socket.hello());
}

#[test]
fn failed_hello_asks_to_abort() {
    let mut socket = connected();
    assert_eq!(socket.handle(RelayEvent::HelloFailed), RelayAction::Abort);
    assert_eq!(socket.state(), ConnectionState::Disconnected);
}

#[test]
fn failed_transmission_stops_the_sender() {
    let mut socket = connected();
    socket.on_message(&time(1000), 1000);
    assert_eq!(socket.handle(RelayEvent::TransmitFailed), RelayAction::StopSending);
    assert_eq!(socket.state(), ConnectionState::ConnectedVerified);
}

#[test]
fn time_trust_gate() {
    let mut socket = connected();
    assert_eq!(socket.state(), ConnectionState::ConnectedUnverified);
    // Three queued messages while unverified: all dropped.
    for _ in 0..3 {
        assert_eq!(socket.outbound(), Delivery::Discard);
    }
    assert_eq!(socket.on_message(&time(1_700_000_030), 1_700_000_000), Inbound::TimeInSync);
    assert_eq!(socket.state(), ConnectionState::ConnectedVerified);
    assert_eq!(socket.outbound(), Delivery::Transmit);
}

#[test]
fn time_out_of_sync_leaves_the_gate_shut() {
    let mut socket = connected();
    assert_eq!(socket.on_message(&time(1_700_000_060), 1_700_000_000), Inbound::TimeNotInSync);
    assert_eq!(socket.on_message(&time(1_699_999_940), 1_700_000_000), Inbound::TimeNotInSync);
    assert_eq!(socket.on_message(&message("time"), 1_700_000_000), Inbound::TimeMissing);
    assert_eq!(socket.state(), ConnectionState::ConnectedUnverified);
    assert_eq!(socket.outbound(), Delivery::Discard);
    assert_eq!(socket.on_message(&time(1_699_999_941), 1_700_000_000), Inbound::TimeInSync);
    assert_eq!(socket.outbound(), Delivery::Transmit);
}

#[test]
fn trust_does_not_outlive_the_connection() {
    let mut socket = connected();
    socket.on_message(&time(5), 5);
    assert_eq!(socket.outbound(), Delivery::Transmit);
    socket.handle(RelayEvent::Failed);
    assert_eq!(socket.outbound(), Delivery::Discard);
    socket.handle(RelayEvent::RetryDue);
    socket.handle(RelayEvent::Opened);
    assert_eq!(socket.state(), ConnectionState::ConnectedUnverified);
    assert_eq!(socket.outbound(), Delivery::Discard);
}

#[test]
fn time_message_without_connection_changes_nothing() {
    let (mut socket, _) = Socket::connect(config());
    assert_eq!(socket.on_message(&time(5), 5), Inbound::TimeInSync);
    assert_eq!(socket.state(), ConnectionState::Connecting);
    assert_eq!(socket.outbound(), Delivery::Discard);
}

#[test]
fn clocks_agree_within_a_minute() {
    assert_eq!(TIME_TOLERANCE, 60);
    assert!(clocks_agree(100, 100));
    assert!(clocks_agree(159, 100));
    assert!(clocks_agree(41, 100));
    assert!(!clocks_agree(160, 100));
    assert!(!clocks_agree(40, 100));
    assert!(!clocks_agree(i64::MAX, i64::MIN));
    assert!(!clocks_agree(i64::MIN, i64::MAX));
    assert!(clocks_agree(i64::MIN, i64::MIN + 59));
}

#[test]
fn actuator_messages_are_dispatched_by_name() {
    let red = Color {
        mode: ColorMode::Rgb,
        is_white: false,
        is_looping: false,
        hue: 0,
        time: 0,
        saturation: 0,
        value: 0,
        red: 255,
        green: 0,
        blue: 0,
    };
    let mut socket = connected();
    let command = MsgServer {
        name: Some("color".to_string()),
        value: Some(red),
        ..message("actuator")
    };
    assert_eq!(command.classify(), Dispatch::Color(red));
    assert_eq!(socket.on_message(&command, 0), Inbound::Color(red));
    let other = MsgServer { name: Some("fan".to_string()), ..command.clone() };
    assert_eq!(other.classify(), Dispatch::UnknownActuator);
    assert_eq!(socket.on_message(&other, 0), Inbound::UnknownActuator);
    let nameless = MsgServer { name: None, ..command.clone() };
    assert_eq!(socket.on_message(&nameless, 0), Inbound::ActuatorWithoutName);
    let empty = MsgServer { value: None, ..command.clone() };
    assert_eq!(socket.on_message(&empty, 0), Inbound::ActuatorWithoutValue);
    let unnamed_and_empty = MsgServer { name: Some("fan".to_string()), value: None, ..command };
    assert_eq!(socket.on_message(&unnamed_and_empty, 0), Inbound::ActuatorWithoutValue);
    assert_eq!(socket.state(), ConnectionState::ConnectedUnverified);
}

#[test]
fn other_messages_are_unrecognized() {
    let mut socket = connected();
    assert_eq!(socket.on_message(&message("reboot"), 0), Inbound::Unrecognized);
    assert_eq!(socket.on_message(&message(""), 0), Inbound::Unrecognized);
    assert_eq!(socket.on_message(&message("Time"), 0), Inbound::Unrecognized);
    assert_eq!(message("time").classify(), Dispatch::TimeWithoutTimestamp);
    assert_eq!(time(7).classify(), Dispatch::Time(7));
}
