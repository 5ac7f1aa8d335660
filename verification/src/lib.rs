//! A self-extracting installer and launcher.
//!
//! The executable carries a compressed archive of an application's files. On the
//! first run it unpacks the archive into a directory that is named after the
//! release and its versions, restores the permission bits of each file, and then
//! hands over to the installed application. Later runs find the directory and
//! hand over at once.
//!
//! This library holds the decisions: the archive format, the install path, the
//! steps that write a record, and the order of the whole run. It never touches
//! the environment or the file system itself; its host performs each request
//! and reports what happened.

pub mod errors;
pub mod paths;
pub mod archive;
pub mod installer;
pub mod metadata;
pub mod target;
pub mod format;
pub mod payload;
pub mod launch;
