//! The relay to the remote service: when to connect, how long to wait after
//! a failure, and which messages may pass.
//!
//! `Socket` holds the state of the connection. The caller owns the network
//! connection itself: it reports what happened to it as a `RelayEvent` and
//! does what the `RelayAction` in return says. Messages to the service pass
//! only while the service's clock is known to agree with the local one.

use vstd::prelude::*;
use crate::color::Color;
use crate::messages::{Config, Dispatch, MsgConnect, MsgServer};

verus! {

/// Seconds to wait before the first retry.
pub const INITIAL_DELAY: u64 = 1;

/// The longest wait between two attempts, in seconds.
pub const MAX_DELAY: u64 = 60;

/// The two clocks agree while they differ by less than this many seconds.
pub const TIME_TOLERANCE: i64 = 60;

/// Where the connection to the service stands.
#[derive(Clone, Copy, Debug, PartialEq, Eq, Structural)]
pub enum ConnectionState {
    /// No connection, and no attempt under way: a wait is running.
    Disconnected,
    /// An attempt to connect is under way.
    Connecting,
    /// Connected, the service's clock not yet checked.
    ConnectedUnverified,
    /// Connected, and the service's clock agrees with the local one.
    ConnectedVerified,
}

/// The wait after a failed attempt, doubled.
pub open spec fn doubled(delay: u64) -> u64 {
    if delay * 2 >= MAX_DELAY {
        MAX_DELAY
    } else {
        (delay * 2) as u64
    }
}

/// The wait after `failures` failed attempts in a row, the first of them
/// made with a fresh wait.
pub open spec fn delay_after(failures: nat) -> u64
    decreases failures,
{
    if failures == 0 {
        INITIAL_DELAY
    } else {
        doubled(delay_after((failures - 1) as nat))
    }
}

/// How long to wait before the next attempt to connect.
#[derive(Clone, Copy, Debug, PartialEq, Eq)]
pub struct BackoffState {
    delay: u64,
}

impl BackoffState {
    #[verifier::type_invariant]
    spec fn in_range(self) -> bool {
        INITIAL_DELAY <= self.delay <= MAX_DELAY
    }

    /// The current wait in seconds.
    pub closed spec fn seconds(self) -> u64 {
        self.delay
    }

    /// A fresh wait of one second.
    pub fn new() -> (backoff: BackoffState)
        ensures
            backoff.seconds() == INITIAL_DELAY,
    {
        BackoffState { delay: INITIAL_DELAY }
    }

    /// The current wait in seconds, which is never below one nor above sixty.
    pub fn delay(&self) -> (delay: u64)
        ensures
            delay == self.seconds(),
            INITIAL_DELAY <= delay <= MAX_DELAY,
    {
        proof {
            use_type_invariant(self);
        }
        self.delay
    }

    /// Doubles the wait after a failed attempt, up to sixty seconds, and
    /// returns the wait that is now due.
    pub fn fail(&mut self) -> (delay: u64)
        ensures
            final(self).seconds() == doubled(old(self).seconds()),
            delay == final(self).seconds(),
    {
        proof {
            use_type_invariant(&*self);
        }
        let delay = if self.delay * 2 >= MAX_DELAY {
            MAX_DELAY
        } else {
            self.delay * 2
        };
        self.delay = delay;
        delay
    }

    /// Resets the wait after a connection was made.
    pub fn succeed(&mut self)
        ensures
            final(self).seconds() == INITIAL_DELAY,
    {
        self.delay = INITIAL_DELAY;
    }
}

/// What happened to the connection.
#[derive(Clone, Copy, Debug, PartialEq, Eq, Structural)]
pub enum RelayEvent {
    /// The wait before the next attempt is over.
    RetryDue,
    /// The attempt to connect, or the connection, ended with an error.
    Failed,
    /// The connection was made and the handshake is complete.
    Opened,
    /// The connection ended without an error.
    Closed,
    /// The greeting could not be sent.
    HelloFailed,
    /// A message to the service could not be sent.
    TransmitFailed,
}

/// What the caller is to do.
#[derive(Clone, Copy, Debug, PartialEq, Eq, Structural)]
pub enum RelayAction {
    /// Try to connect, and report `Opened` or `Failed`.
    Connect,
    /// Send the greeting and start sending queued messages.
    Greet,
    /// Wait this many seconds, then report `RetryDue`.
    Wait(u64),
    /// Stop sending queued messages on this connection.
    StopSending,
    /// Give up: the process cannot go on.
    Abort,
    /// Nothing.
    Nothing,
}

/// What to do with a message that is queued for the service.
#[derive(Clone, Copy, Debug, PartialEq, Eq, Structural)]
pub enum Delivery {
    /// Send it.
    Transmit,
    /// Drop it: the service's clock has not been checked on this connection.
    Discard,
}

/// What came of a message from the service.
#[derive(Clone, Copy, Debug, PartialEq, Eq, Structural)]
pub enum Inbound {
    /// The service's clock agrees with the local one.
    TimeInSync,
    /// The service's clock differs from the local one by a minute or more.
    TimeNotInSync,
    /// A time message without a timestamp.
    TimeMissing,
    /// The light is to take this state.
    Color(Color),
    /// A command for an actuator that this device does not have.
    UnknownActuator,
    /// An actuator command that names no actuator.
    ActuatorWithoutName,
    /// An actuator command that carries no value.
    ActuatorWithoutValue,
    /// A message of a kind that this device does not know.
    Unrecognized,
}

/// The state of the relay as plain values.
pub struct Relay {
    pub state: ConnectionState,
    pub delay: u64,
}

impl ConnectionState {
    /// Whether a connection is up.
    pub open spec fn is_connected(self) -> bool {
        self == ConnectionState::ConnectedUnverified || self == ConnectionState::ConnectedVerified
    }
}

/// Whether two clocks, in seconds since the epoch, agree.
pub open spec fn in_sync(timestamp: i64, now: i64) -> bool {
    -TIME_TOLERANCE < timestamp - now < TIME_TOLERANCE
}

impl Relay {
    /// The relay before its first attempt, and what is to be done first.
    pub open spec fn start() -> (Relay, RelayAction) {
        (
            Relay { state: ConnectionState::Connecting, delay: INITIAL_DELAY },
            RelayAction::Connect,
        )
    }

    /// The relay after an event, and what is to be done.
    ///
    /// Every failure leads to `Disconnected` and a wait twice as long as the
    /// last, up to a minute. Every connection made starts unverified, with the
    /// wait reset to one second. A connection that ends without an error is
    /// followed by the wait as it stands. There is no state from which the
    /// relay gives up of its own accord; only a greeting that cannot be sent
    /// makes it ask for the process to end.
    pub open spec fn after(self, event: RelayEvent) -> (Relay, RelayAction) {
        match event {
            RelayEvent::RetryDue => if self.state == ConnectionState::Disconnected {
                (
                    Relay { state: ConnectionState::Connecting, delay: self.delay },
                    RelayAction::Connect,
                )
            } else {
                (self, RelayAction::Nothing)
            },
            RelayEvent::Failed => (
                Relay { state: ConnectionState::Disconnected, delay: doubled(self.delay) },
                RelayAction::Wait(doubled(self.delay)),
            ),
            RelayEvent::Opened => (
                Relay { state: ConnectionState::ConnectedUnverified, delay: INITIAL_DELAY },
                RelayAction::Greet,
            ),
            RelayEvent::Closed => (
                Relay { state: ConnectionState::Disconnected, delay: self.delay },
                RelayAction::Wait(self.delay),
            ),
            RelayEvent::HelloFailed => (
                Relay { state: ConnectionState::Disconnected, delay: self.delay },
                RelayAction::Abort,
            ),
            RelayEvent::TransmitFailed => (self, RelayAction::StopSending),
        }
    }

    /// The relay after a message from the service that asks for `dispatch`
    /// arrived at the local time `now`, and what came of the message. Only a
    /// timestamp in sync with the local clock changes the state, and only
    /// that of an open connection.
    pub open spec fn received(self, dispatch: Dispatch, now: i64) -> (Relay, Inbound) {
        match dispatch {
            Dispatch::Time(timestamp) => if in_sync(timestamp, now) {
                (
                    Relay {
                        state: if self.state.is_connected() {
                            ConnectionState::ConnectedVerified
                        } else {
                            self.state
                        },
                        delay: self.delay,
                    },
                    Inbound::TimeInSync,
                )
            } else {
                (self, Inbound::TimeNotInSync)
            },
            Dispatch::TimeWithoutTimestamp => (self, Inbound::TimeMissing),
            Dispatch::Color(color) => (self, Inbound::Color(color)),
            Dispatch::UnknownActuator => (self, Inbound::UnknownActuator),
            Dispatch::ActuatorWithoutName => (self, Inbound::ActuatorWithoutName),
            Dispatch::ActuatorWithoutValue => (self, Inbound::ActuatorWithoutValue),
            Dispatch::Unrecognized => (self, Inbound::Unrecognized),
        }
    }

    /// What to do with a queued message: it passes only on a verified connection.
    pub open spec fn delivery(self) -> Delivery {
        if self.state == ConnectionState::ConnectedVerified {
            Delivery::Transmit
        } else {
            Delivery::Discard
        }
    }
}

/// The relay of one device.
pub struct Socket {
    config: Config,
    state: ConnectionState,
    backoff: BackoffState,
}

impl View for Socket {
    type V = Relay;

    closed spec fn view(&self) -> Relay {
        Relay { state: self.state, delay: self.backoff.seconds() }
    }
}

impl Socket {
    /// The device that this relay speaks for.
    pub closed spec fn device(self) -> Config {
        self.config
    }

    /// Sets up the relay of the device that `config` describes and asks for
    /// the first attempt to connect.
    pub fn connect(config: Config) -> (started: (Socket, RelayAction))
        ensures
            (started.0@, started.1) == Relay::start(),
            started.0.device() == config,
    {
        (
            Socket { config, state: ConnectionState::Connecting, backoff: BackoffState::new() },
            RelayAction::Connect,
        )
    }

    /// Where the connection stands.
    pub fn state(&self) -> (state: ConnectionState)
        ensures
            state == self@.state,
    {
        self.state
    }

    /// The wait that the next failure would double, in seconds.
    pub fn delay(&self) -> (delay: u64)
        ensures
            delay == self@.delay,
            INITIAL_DELAY <= delay <= MAX_DELAY,
    {
        self.backoff.delay()
    }

    /// The greeting to send when a connection was made.
    pub fn hello(&self) -> (hello: MsgConnect)
        ensures
            hello.message@ == "connect"@,
            hello.name@ == self.device().name@,
            hello.serial@ == self.device().serial@,
    {
        MsgConnect::new(&self.config)
    }

    /// Takes an event of the connection and says what is to be done.
    pub fn handle(&mut self, event: RelayEvent) -> (action: RelayAction)
        ensures
            (final(self)@, action) == old(self)@.after(event),
            final(self).device() == old(self).device(),
    {
        match event {
            RelayEvent::RetryDue => {
                if self.state == ConnectionState::Disconnected {
                    self.state = ConnectionState::Connecting;
                    RelayAction::Connect
                } else {
                    RelayAction::Nothing
                }
            },
            RelayEvent::Failed => {
                self.state = ConnectionState::Disconnected;
                let delay = self.backoff.fail();
                RelayAction::Wait(delay)
            },
            RelayEvent::Opened => {
                self.state = ConnectionState::ConnectedUnverified;
                self.backoff.succeed();
                RelayAction::Greet
            },
            RelayEvent::Closed => {
                self.state = ConnectionState::Disconnected;
                RelayAction::Wait(self.backoff.delay())
            },
            RelayEvent::HelloFailed => {
                self.state = ConnectionState::Disconnected;
                RelayAction::Abort
            },
            RelayEvent::TransmitFailed => RelayAction::StopSending,
        }
    }

    /// Takes a message from the service, received at the local time `now`
    /// in seconds since the epoch, and says what came of it.
    pub fn on_message(&mut self, message: &MsgServer, now: i64) -> (inbound: Inbound)
        ensures
            (final(self)@, inbound) == old(self)@.received(message.dispatch(), now),
            final(self).device() == old(self).device(),
    {
        match message.classify() {
            Dispatch::Time(timestamp) => {
                if clocks_agree(timestamp, now) {
                    if self.state == ConnectionState::ConnectedUnverified {
                        self.state = ConnectionState::ConnectedVerified;
                    }
                    Inbound::TimeInSync
                } else {
                    Inbound::TimeNotInSync
                }
            },
            Dispatch::TimeWithoutTimestamp => Inbound::TimeMissing,
            Dispatch::Color(color) => Inbound::Color(color),
            Dispatch::UnknownActuator => Inbound::UnknownActuator,
            Dispatch::ActuatorWithoutName => Inbound::ActuatorWithoutName,
            Dispatch::ActuatorWithoutValue => Inbound::ActuatorWithoutValue,
            Dispatch::Unrecognized => Inbound::Unrecognized,
        }
    }

    /// Says what to do with a message that is queued for the service.
    pub fn outbound(&self) -> (delivery: Delivery)
        ensures
            delivery == self@.delivery(),
    {
        if self.state == ConnectionState::ConnectedVerified {
            Delivery::Transmit
        } else {
            Delivery::Discard
        }
    }
}

/// Tells whether two clocks, in seconds since the epoch, agree.
pub fn clocks_agree(timestamp: i64, now: i64) -> (agree: bool)
    ensures
        agree == in_sync(timestamp, now),
{
    let difference = timestamp as i128 - now as i128;
    -(TIME_TOLERANCE as i128) < difference && difference < TIME_TOLERANCE as i128
}

/// The wait never leaves the range from one second to a minute, and from
/// the sixth failure in a row on it is a minute.
pub proof fn lemma_delay_bounds(failures: nat)
    ensures
        INITIAL_DELAY <= delay_after(failures) <= MAX_DELAY,
        failures >= 6 ==> delay_after(failures) == MAX_DELAY,
    decreases failures,
{
    if failures > 0 {
        lemma_delay_bounds((failures - 1) as nat);
        if failures == 6 {
            reveal_with_fuel(delay_after, 7);
        }
    }
}

/// The fresh wait, and the waits after one to six failures in a row.
pub proof fn lemma_delay_sequence()
    ensures
        delay_after(0) == 1,
        delay_after(1) == 2,
        delay_after(2) == 4,
        delay_after(3) == 8,
        delay_after(4) == 16,
        delay_after(5) == 32,
        delay_after(6) == 60,
{
    reveal_with_fuel(delay_after, 7);
}

/// The relay after `failures` failures in a row.
pub open spec fn after_failures(relay: Relay, failures: nat) -> Relay
    decreases failures,
{
    if failures == 0 {
        relay
    } else {
        after_failures(relay, (failures - 1) as nat).after(RelayEvent::Failed).0
    }
}

/// From a fresh wait, be it that of a new relay or of a connection just
/// made, each failure in a row asks for the next wait of the doubling
/// sequence and leaves the relay disconnected.
pub proof fn lemma_backoff_sequence(relay: Relay, failures: nat)
    requires
        relay.delay == INITIAL_DELAY,
    ensures
        after_failures(relay, failures).delay == delay_after(failures),
        after_failures(relay, failures).after(RelayEvent::Failed) == (
            Relay { state: ConnectionState::Disconnected, delay: delay_after(failures + 1) },
            RelayAction::Wait(delay_after(failures + 1)),
        ),
    decreases failures,
{
    if failures > 0 {
        lemma_backoff_sequence(relay, (failures - 1) as nat);
    }
}

/// After a connection was made, the wait that follows the next failure is
/// the one that follows a first failure, however many failures came before.
pub proof fn lemma_success_resets_delay(relay: Relay)
    ensures
        relay.after(RelayEvent::Opened).0.after(RelayEvent::Failed).1 == RelayAction::Wait(
            delay_after(1),
        ),
{
    reveal_with_fuel(delay_after, 2);
}

/// No event of the connection establishes trust in the service's clock, and
/// a new connection never inherits it: after any event the relay lets
/// messages pass only if it did so before and the event was a failed
/// transmission or a retry that found the connection up.
pub proof fn lemma_events_never_verify(relay: Relay, event: RelayEvent)
    ensures
        relay.after(event).0.delivery() == Delivery::Transmit ==> relay.delivery()
            == Delivery::Transmit && (event == RelayEvent::TransmitFailed || event
            == RelayEvent::RetryDue),
{
}

/// While the service's clock is unverified every queued message is dropped,
/// and a message from the service changes that only if it is a time message
/// in sync with the local clock that arrives on an open connection.
pub proof fn lemma_gate_opens_on_time_only(relay: Relay, dispatch: Dispatch, now: i64)
    requires
        relay.delivery() == Delivery::Discard,
    ensures
        relay.received(dispatch, now).0.delivery() == Delivery::Transmit <==> relay.state
            == ConnectionState::ConnectedUnverified && (dispatch matches Dispatch::Time(timestamp)
            && in_sync(timestamp, now)),
{
}

} // verus!
