//! Command-level driver core for a six-slot motion-controller cabinet that
//! speaks a line-oriented ASCII protocol over a serial or TCP byte channel.
//!
//! The crate is organised around a small verified core:
//! * [`codec`] frames and classifies device responses and builds request
//!   payloads;
//! * [`channel`] is the capability interface over a concrete byte transport;
//! * [`connection`] owns the chunked read loop and the request/response
//!   transaction;
//! * [`context`] validates commands against controller state (operating mode,
//!   installed modules) and dispatches them;
//! * [`builder`] carries the transport selection that precedes a connection.
//!
//! Opening the physical port or socket is left to the embedding program,
//! which supplies any type implementing [`channel::Channel`].

pub mod builder;
pub mod channel;
pub mod codec;
pub mod config;
pub mod connection;
pub mod context;
pub mod error;
pub mod ipv4;
pub mod numtext;

pub use builder::BaseContextBuilder;
pub use config::{ControllerOpMode, Direction, IpAddrMode, Module, ModuleChannel, SerialInterface,
    SetpointPosMode, Slot};
pub use context::BaseContext;
pub use error::{BaseResult, Error};
