//! Passphrase-based encryption of files and directory trees.
//!
//! - `crypto`, `stream`, `chunked`: the cipher. A key is derived from a
//!   passphrase; buffers are sealed in frames, streams frame by frame.
//! - `container`: the pack, a directory tree as one sequence of bytes.
//! - `actions`: sealing and opening whole trees, and the errors of the
//!   commands.
//! - `commands`, `batch`: what the commands decide, from their arguments
//!   and from what the file system and the user say; the items and the
//!   summary of a batch.
//! - `log`, `paths`, `text`: messages, paths and strings.
//!
//! Nothing here reads or writes files or talks to a terminal: the caller
//! does, and hands over what it found.

pub mod actions;
pub mod batch;
pub mod chunked;
pub mod commands;
pub mod container;
pub mod crypto;
pub mod log;
pub mod paths;
pub mod stream;
pub mod text;
