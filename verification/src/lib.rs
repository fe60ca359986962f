//! Relay and directory service for a group-messaging protocol.

pub mod assoc;
pub mod connection;
pub mod directory;
pub mod dispatch;
pub mod error;
pub mod framing;
pub mod group;
pub mod identity;
pub mod message;
pub mod registry;
pub mod service;
