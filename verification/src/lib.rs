//! Core logic of a root-provider mediation daemon: provider configuration
//! table parsing and per-uid authorization queries, helper version
//! classification, mount-revert target computation, and the write-once
//! namespace snapshot cache, all with verified contracts.

pub mod bytes;
pub mod num;
pub mod apatch;
pub mod mount;
pub mod cache;
pub mod handshake;
