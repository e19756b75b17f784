//! The peer network: what is served to other peers, what is asked of them, and what each of
//! their messages leads to.
pub mod commands;
pub mod deliveries;
pub mod distrib;
pub mod downloads;
pub mod gate;
pub mod hub;
pub mod listing;
pub mod naming;
pub mod uploads;
