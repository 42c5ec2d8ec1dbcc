//! Trust Spanning Protocol: authenticated, confidential messaging between
//! verified identifiers.
//!
//! A verified identifier binds a name to a verifying key, an encryption
//! key and a transport endpoint. Between two of them the library seals
//! direct messages, signs messages for anyone, nests a message inside
//! another to hide who talks to whom, routes messages through
//! intermediaries, and keeps the state of a relationship that is asked
//! for, accepted and cancelled.
//!
//! - [`cesr`] frames the parts of a message and tells them apart again.
//! - [`payload`] is what a sealed message carries.
//! - [`crypto`] seals, signs, opens and verifies.
//! - [`vid`] and [`did`] hold identifiers and resolve them.
//! - [`store`], [`forward`] and [`facade`] keep the identifiers that a
//!   process knows and choose how a message is sent and what a received
//!   one means.
//! - [`laws`] states what holds of all of this together.
//!
//! The library does no input or output: it hands out bytes with the
//! endpoint to send them to, and takes bytes that arrived.

pub mod cesr;
pub mod crypto;
pub mod definitions;
pub mod did;
pub mod error;
pub mod facade;
pub mod forward;
pub mod laws;
pub mod payload;
pub mod store;
pub mod text;
pub mod vid;

pub use crate::definitions::{Payload, ReceivedTspMessage, Receiver, Sender, VerifiedVid};
pub use crate::error::Error;
pub use crate::store::{ExportVid, Store};
pub use crate::vid::{OwnedVid, Vid};
