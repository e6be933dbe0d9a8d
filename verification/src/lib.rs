//! Storage bridge behind a mobile front end: a key/value service that keeps
//! its data in memory, in an LMDB environment or in a sled store, chosen by a
//! numeric mode when the service is opened.
//!
//! The library holds the service's state and every decision it takes; the
//! host that embeds it performs the disk work that a decision asks for and
//! hands the outcome back.

pub mod backend;
pub mod mem;
pub mod proto;
pub mod db;
pub mod lmdb;
pub mod response;
