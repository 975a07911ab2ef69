//! Protocol logic of a bridge between a sensor/actuator peripheral on a
//! synchronous bus and a remote telemetry service.
//!
//! The crate holds the rules only: how frames are built and checked, how the
//! packed actuator word maps to named fields, and how the relay decides what
//! to do on each network event. Moving bytes over the bus or the socket is
//! left to the caller, who performs the actions these types ask for and hands
//! back what happened.

pub mod bridge;
pub mod color;
pub mod crc;
pub mod frame;
pub mod messages;
pub mod microfloat;
pub mod peripheral;
pub mod socket;
pub mod telemetry;
mod text;
