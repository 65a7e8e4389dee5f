//! A DNS proxy core that races each query against several upstream
//! DNS-over-HTTPS resolvers: domain rules, provider configuration,
//! the reconnecting client's state machines and the race handler's
//! fan-in decisions, each with a verified contract.

pub mod client;
pub mod config;
pub mod handler;
pub mod rules;
