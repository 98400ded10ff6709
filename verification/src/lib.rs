//! A local credential vault: entries sealed under a key derived from a master
//! password, duress passwords that open a decoy view, and recovery of the vault
//! key through a time-based one-time code.

pub mod accounts;
pub mod activity_logger;
pub mod backup;
pub mod cipher;
pub mod clock;
pub mod codec;
pub mod entries;
pub mod error;
pub mod fake_data_generator;
pub mod invariants;
pub mod json;
pub mod kdf;
pub mod laws;
pub mod otp;
pub mod password_manager;
pub mod pseudo_mode;
pub mod recovery;
pub mod security;
pub mod sorting;
pub mod statistics;
pub mod store;
pub mod table;
