//! Sans-I/O core of a streaming client for pushed market quotes.
//!
//! The crate holds everything the client decides: which symbols are
//! subscribed, what the subscription request looks like, how an inbound
//! frame is decoded, and which callback an update is routed to. Sockets and
//! task scheduling are left to the caller, which feeds the engine with the
//! outcome of each transport operation and performs the action it answers
//! with.

pub mod decoder;
pub mod encoding;
pub mod quote;
pub mod record;
pub mod registry;
pub mod request;
pub mod streamer;
pub mod wire;

pub use decoder::{decode, decode_record, DecodeError};
pub use quote::{Quote, QuoteType, TradingSession};
pub use record::RawUpdate;
pub use registry::SubscriptionRegistry;
pub use streamer::{Action, DecodePolicy, Event, State, StreamError, Streamer};
