//! The decision core of an energy monitor: what the sensors report becomes a
//! timestamped event, the event becomes per-component totals, and the totals
//! go to an MQTT broker and to Home Assistant.
//!
//! Everything that touches hardware, a clock, a socket or a database stays
//! outside: it hands plain values in and carries out what comes back.

pub mod collector;
pub mod computed;
pub mod config;
pub mod connection;
pub mod discovery;
pub mod energy;
pub mod envelope;
pub mod event;
pub mod hardware;
pub mod process;
pub mod publisher;
pub mod sensor;
pub mod startup;
pub mod text;
pub mod topics;
