//! Decoding of fixed-layout record tables and indexed string tables, and resolution of
//! global string ids into five string tables.

pub mod error;
pub mod wire;
pub mod value;
pub mod schema;
pub mod record;
pub mod stringtbl;
pub mod itemtbl;
pub mod datatbls_mgr;
