//! The content store of a small paste service.
//!
//! Clients upload byte blobs; each is kept once, under a name that no other
//! post has, beside a one-line record of its size, its time of arrival and
//! the address it came from. This crate holds the rules of that store: how a
//! name is chosen, what of an upload is kept, how the record is written and
//! read back, and what a listing shows. Reading sockets and files is left to
//! the program that uses it.
//!
//! - [`naming`] chooses names: six random bytes in URL-safe base64, with
//!   underscores behind them where the name is taken.
//! - [`ingest`] takes an upload in: it drops the transport's preamble, hands
//!   on the rest and counts it.
//! - [`metadata`] writes the record of a post and reads it back; [`decimal`]
//!   writes the size.
//! - [`store`] is a store of posts in memory that follows all of these rules;
//!   [`laws`] states what holds of every store.
//! - [`listing`] turns a reading of the posts directory into a listing and
//!   into the page that shows it; [`preview`] makes the body of the page of a
//!   single post.
//! - [`layout`] says where a keeper of files puts posts and records.
//!
//! Every function here is verified against its contract. A handful of calls
//! into other crates are believed, not proved; each is a private function
//! whose comment says what is taken on trust.

mod clock;
pub mod decimal;
pub mod ingest;
pub mod laws;
pub mod layout;
pub mod listing;
pub mod metadata;
pub mod naming;
pub mod preview;
pub mod store;
