//! A typed, composable way to say how a file is opened, read and written.
//!
//! A [`FileOpener`] states an intent (append, overwrite, truncate, create if
//! absent, read only) and turns it into the primitive switches of an open
//! call. A [`File`] wraps a path and offers the whole operations: read all
//! bytes, read as text, append, overwrite, truncate. Writes are forced to
//! the device before they report success.
//!
//! The operations run against a [`Store`], whose behaviour is that of the
//! model in [`disk`]; what holds of them whatever the store held before is
//! proved in [`laws`].

pub mod disk;
pub mod error;
pub mod file;
pub mod laws;
pub mod opener;
pub mod store;
pub mod text;

pub use crate::error::IoError;
pub use crate::file::{buf_writer_with, File};
pub use crate::opener::{CreateMode, FileOpener, OpenFlags, WriteOption};
pub use crate::store::{Handle, Store};
