//! Verified core of a privacy-preserving AI verification network.
pub mod field;
pub mod poly;
pub mod shamir;
pub mod crypto;
pub mod audit_log;
pub mod audit_sign;
pub mod latency;
pub mod storage;
pub mod keyvault;
pub mod p2p;
pub mod chain;
pub mod tee;
pub mod failover;
pub mod zkp;
pub mod gateway;
pub mod redaction;
pub mod inference;
pub mod rotation;
