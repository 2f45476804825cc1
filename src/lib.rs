//! A key-value ledger kept in step with a transaction feed, whose state digest is
//! certified at each checkpoint by a quorum of peers.

pub mod api;
pub mod balance;
pub mod codec;
pub mod database_service;
pub mod handler;
pub mod quorum;
