//! The core of a command-line client for an image-generation API.
//!
//! Two things are settled here. One is the wire format of an edit request,
//! a multipart form whose bytes are fixed by [`multipart`] and [`api`]. The
//! other is what the command line means: what each input token names and
//! which inputs go together ([`input`]), which options are sent ([`cli`]),
//! and how the output files are named ([`sanitize`], [`api`]).
//!
//! Nothing here reads or writes a file, a stream or a socket. What depends
//! on the outside is handed in as a value: whether a path exists, the bytes
//! that were read, what the environment holds.

pub mod api;
pub mod cli;
pub mod config;
pub mod input;
pub mod multipart;
pub mod sanitize;
pub mod text;
