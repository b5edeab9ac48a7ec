//! Parts shared by every way of reading and writing a table.

pub mod row_identity;
pub mod predicate;
pub mod projection;
pub mod query_cursor;
pub mod scan_tasks;
