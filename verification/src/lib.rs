//! Schema metadata and query-execution layer for a statically declared
//! data record persisted across heterogeneous SQL backends.
//!
//! The crate derives a canonical, dialect-independent schema description
//! from field declarations and per-field attributes, renders it into
//! dialect-correct SQL DDL, decodes untyped result rows into canonical
//! values by the database's reported column type name, and models the
//! once-only acquisition of reader and writer connection pools.

pub mod accessor;
pub mod casing;
pub mod column;
pub mod columnar;
pub mod constraint;
pub mod dialect;
pub mod meta;
pub mod model_map;
pub mod pool;
pub mod row;
pub mod schema;
pub mod secret;
pub mod strutil;
pub mod value;
