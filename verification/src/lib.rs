//! Session, permission and per-canvas hub logic of a collaborative canvas
//! server, as plain state machines with machine-checked contracts.
//!
//! Apart from reading the clock and drawing connection ids, nothing in
//! this crate reaches outside. Every operation takes the current state and
//! an event and yields the next state together with the messages to deliver
//! or the lines to persist; the caller owns sockets, storage and locks.

pub mod assoc;
pub mod auth;
pub mod canvas_manager;
pub mod canvas_permissions;
pub mod cookies;
pub mod event_log;
pub mod handlers;
pub mod identifiable_web_socket;
pub mod json;
pub mod permission;
pub mod permission_refresh_list;
pub mod sequences;
pub mod socket_claims_manager;
pub mod text;
pub mod websocket_handlers;
