//! The messages exchanged with the remote service, as values. Turning them
//! into text and back is left to the caller.

use vstd::prelude::*;
use crate::color::Color;
use crate::telemetry::{centidegrees, decode_temp, LOG_INTERVAL};
use crate::text::is_text;

verus! {

/// What identifies this device to the service.
#[derive(Clone, Debug, PartialEq, Eq)]
pub struct Config {
    pub name: String,
    pub serial: String,
}

/// A message from the service.
#[derive(Clone, Debug, PartialEq, Eq)]
pub struct MsgServer {
    pub message: String,
    pub name: Option<String>,
    pub timestamp: Option<i64>,
    pub value: Option<Color>,
}

/// The first message on every connection, which names the device.
#[derive(Clone, Debug, PartialEq, Eq)]
pub struct MsgConnect {
    pub message: String,
    pub name: String,
    pub serial: String,
}

/// A sensor reading for the service's log.
#[derive(Clone, Debug, PartialEq, Eq)]
pub struct MsgSensorLog {
    pub message: String,
    pub name: String,
    /// The reading, in hundredths of the sensor's unit.
    pub value: i64,
    /// When the reading was taken, in seconds since the epoch.
    pub time: i64,
    pub sensor_type: String,
    /// Seconds between two readings.
    pub interval: i64,
}

/// The state of the light, reported to the service after it changed.
#[derive(Clone, Debug, PartialEq, Eq)]
pub struct MsgColor {
    pub message: String,
    pub name: String,
    pub value: Color,
}

/// What a message from the service asks for.
#[derive(Clone, Copy, Debug, PartialEq, Eq, Structural)]
pub enum Dispatch {
    /// The service's clock reads this many seconds since the epoch.
    Time(i64),
    /// A time message that carries no timestamp.
    TimeWithoutTimestamp,
    /// The light is to take this state.
    Color(Color),
    /// A command for an actuator that this device does not have.
    UnknownActuator,
    /// An actuator command that names no actuator.
    ActuatorWithoutName,
    /// An actuator command that carries no value.
    ActuatorWithoutValue,
    /// A message of a kind that this device does not know.
    Unrecognized,
}

impl MsgServer {
    /// What this message asks for. The field `message` decides the kind. An
    /// actuator command needs both a name and a value before the name is
    /// looked at.
    pub open spec fn dispatch(self) -> Dispatch {
        if self.message@ == "time"@ {
            match self.timestamp {
                Some(timestamp) => Dispatch::Time(timestamp),
                None => Dispatch::TimeWithoutTimestamp,
            }
        } else if self.message@ == "actuator"@ {
            match (self.name, self.value) {
                (None, _) => Dispatch::ActuatorWithoutName,
                (Some(_), None) => Dispatch::ActuatorWithoutValue,
                (Some(name), Some(color)) => if name@ == "color"@ {
                    Dispatch::Color(color)
                } else {
                    Dispatch::UnknownActuator
                },
            }
        } else {
            Dispatch::Unrecognized
        }
    }

    /// Tells what this message asks for.
    pub fn classify(&self) -> (dispatch: Dispatch)
        ensures
            dispatch == self.dispatch(),
    {
        if is_text(self.message.as_str(), "time") {
            match self.timestamp {
                Some(timestamp) => Dispatch::Time(timestamp),
                None => Dispatch::TimeWithoutTimestamp,
            }
        } else if is_text(self.message.as_str(), "actuator") {
            match &self.name {
                None => Dispatch::ActuatorWithoutName,
                Some(name) => match self.value {
                    None => Dispatch::ActuatorWithoutValue,
                    Some(color) => if is_text(name.as_str(), "color") {
                        Dispatch::Color(color)
                    } else {
                        Dispatch::UnknownActuator
                    },
                },
            }
        } else {
            Dispatch::Unrecognized
        }
    }
}

impl MsgConnect {
    /// The greeting of the device that `config` describes.
    pub fn new(config: &Config) -> (hello: MsgConnect)
        ensures
            hello.message@ == "connect"@,
            hello.name@ == config.name@,
            hello.serial@ == config.serial@,
    {
        MsgConnect {
            message: "connect".to_owned(),
            name: config.name.clone(),
            serial: config.serial.clone(),
        }
    }
}

impl MsgSensorLog {
    /// The log entry for a temperature reading of the peripheral taken at `time`.
    pub fn temperature(reading: u32, time: i64) -> (entry: MsgSensorLog)
        ensures
            entry.message@ == "sensorLog"@,
            entry.name@ == "temp"@,
            entry.value == centidegrees(reading),
            entry.time == time,
            entry.sensor_type@ == "temperature"@,
            entry.interval == LOG_INTERVAL,
    {
        MsgSensorLog {
            message: "sensorLog".to_owned(),
            name: "temp".to_owned(),
            value: decode_temp(reading),
            time,
            sensor_type: "temperature".to_owned(),
            interval: LOG_INTERVAL,
        }
    }
}

impl MsgColor {
    /// The report of a new state of the light.
    pub fn new(color: Color) -> (report: MsgColor)
        ensures
            report.message@ == "actuator"@,
            report.name@ == "color"@,
            report.value == color,
    {
        MsgColor { message: "actuator".to_owned(), name: "color".to_owned(), value: color }
    }
}

} // verus!
