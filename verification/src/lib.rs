//! Core of a board downloader.
//!
//! A board is a named collection of pins that a catalogue serves page by page, each
//! page with an opaque token that asks for the next. This library holds what such a
//! download has to decide, each function with a contract that Verus proves:
//!
//! - [`address`]: from a board's address to its owner and name.
//! - [`request`]: where the two catalogue calls go and what they carry.
//! - [`resolve`]: from the answer to the board call to a [`board::Board`].
//! - [`feed`]: from the answer to a feed call to one page of pins.
//! - [`pagination`]: the walk through the feed, and the tokens that end it.
//! - [`download`]: the file a pin's picture is stored in.
//! - [`schedule`]: the download of all pictures, with a bound on concurrent writes.
//!
//! The library sends no request and touches no file. It is told what was answered and
//! what was found, and says what to do next; the caller does it.

pub mod address;
pub mod board;
pub mod download;
pub mod error;
pub mod feed;
pub mod json;
pub mod pagination;
pub mod request;
pub mod resolve;
pub mod schedule;
pub mod text;
