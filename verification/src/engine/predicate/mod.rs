//! Conditions that scans and write-conflict checks share.

pub mod policy;
