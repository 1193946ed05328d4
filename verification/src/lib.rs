//! A minimal blogging backend core: a uniform response envelope, a typed
//! error taxonomy, a document mapper that strips null fields, a generic
//! CRUD service over a document collection, and a query filter builder
//! for keyword search over articles.

pub mod article;
pub mod common;
pub mod doc;
pub mod filter;
pub mod oid;
pub mod store;
