//! Storage lifecycle engine of an ephemeral file-drop service.
//!
//! A file is uploaded once, is reachable through a short and a long alias,
//! and disappears when it expires, when it is revoked, or when its download
//! allowance is used up. This crate decides how long a file lives, how many
//! times it may be fetched, whether an uploader is still within quota, which
//! alias a file gets, and how a dead file is removed from the metadata index
//! and the blob index together.
//!
//! The parts, leaves first:
//!
//! - [`record`], [`store`], [`blob`]: a file's row, the index of rows, the
//!   index of blobs;
//! - [`expiration`]: from a size to a retention period;
//! - [`quota`]: whether an uploader may store one more file;
//! - [`alias`]: a free alias out of random candidates;
//! - [`reclaim`]: the joint removal of blob and row;
//! - [`download`], [`lookup`]: serving a file and counting the fetch;
//! - [`sweep`]: removing what has expired;
//! - [`upload`], [`update`]: taking a file in, and its owner's changes;
//! - [`engine`]: all of it behind one value, with its invariants;
//! - [`options`], [`parse`], [`assets`], [`response`], [`error`]: settings,
//!   pages and replies of the service around the engine.
//!
//! Every operation that reads, decides and then changes a record takes the
//! state by `&mut`: exclusive access is the single serialization point, so a
//! caller that shares the state between tasks puts it behind one lock.

pub mod alias;
pub mod assets;
pub mod blob;
pub mod download;
pub mod engine;
pub mod error;
pub mod expiration;
pub mod lookup;
pub mod options;
pub mod parse;
pub mod quota;
pub mod reclaim;
pub mod record;
pub mod response;
pub mod store;
pub mod sweep;
pub mod update;
pub mod upload;
