//! Ministore: the query language, schema rules, planning and result shaping of a
//! single-file document search index.
pub mod text;
pub mod error;
pub mod query;
pub mod dates;
pub mod constants;
pub mod schema;
pub mod json;
pub mod item;
pub mod number;
pub mod put;
pub mod cursor;
pub mod search;
pub mod output;
pub mod aggregate;
pub mod fts;
pub mod sql;
pub mod write;
pub mod batch;
pub mod index;
pub mod laws;
pub mod meaning;
