//! Logic of an Iceberg table access method.

use vstd::prelude::*;

pub mod catalog;
pub mod config;
pub mod customscan;
pub mod engine;
pub mod error;
pub mod oids;
pub mod text;

verus! {

/// Object identifier of a database object.
pub type Oid = u32;

} // verus!
