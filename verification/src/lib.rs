//! The storage backend of a sync server on Spanner.
//!
//! A [`db::SpannerDb`] decides what to ask of Spanner and what the replies mean. It is opened
//! with the current time, at which its operations read and write. It sends nothing itself: an
//! operation that needs a reply which is not on record stops with [`error::Stop::Waiting`], and
//! [`conn::Conn::pending`] is the request to carry out. Once its answer is on record, the
//! operation is run again from a copy of the storage as it was before. [`replay`] holds the laws
//! that make this sound.
//!
//! What each operation sends and what it makes of the replies stands as laws over the requests
//! and the replies themselves: [`statements`] and [`lookups`] on collections, [`queries`] and
//! [`stored`] on reading objects, [`puts`], [`posts`] and [`removals`] on writing and deleting
//! them, [`naming`] on the figures of all collections, [`refusals`] on errors. [`calls`] and
//! [`pieces`] tie them to calls of the functions.

pub mod cache;
pub mod calls;
pub mod collections;
pub mod conn;
pub mod db;
pub mod decimal;
pub mod error;
pub mod figures;
pub mod laws;
pub mod locks;
pub mod lookups;
pub mod names;
pub mod naming;
pub mod objects;
pub mod pages;
pub mod params;
pub mod pieces;
pub mod posts;
pub mod puts;
pub mod queries;
pub mod read;
pub mod refusals;
pub mod removals;
pub mod replay;
pub mod results;
pub mod rows;
pub mod scope;
pub mod statements;
pub mod storage;
pub mod stored;
pub mod table;
pub mod text;
pub mod timestamp;
pub mod write;
