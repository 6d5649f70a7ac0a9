//! Linking to and driving a lighting bridge over its local JSON/HTTP API.
//!
//! The library decides; the caller does the talking. Commands are described
//! as requests and planned as HTTP calls ([`commands`], [`bridge`]); answers
//! are read as JSON ([`codec`], [`json`], [`network`], [`lightstructs`]).
//! Pairing with a bridge ([`registration`]), getting a session
//! ([`session`], [`store`], [`discovery`]) and sending a change to many
//! lights ([`batch`]) are state machines: the caller performs the action a
//! machine asks for and reports back what happened.

pub mod batch;
pub mod bridge;
pub mod codec;
pub mod commands;
pub mod discovery;
pub mod error;
pub mod json;
pub mod lightstructs;
pub mod network;
pub mod registration;
pub mod session;
pub mod store;
pub mod text;
