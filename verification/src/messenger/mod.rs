//! Messengers: declaring which component sends and handles which messages, and routing them.
pub mod actor;
pub mod direct;
pub mod grammar;
pub mod spec;
pub mod topology;
