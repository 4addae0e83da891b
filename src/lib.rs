//! A read-only filesystem namespace over a document-management service:
//! node identifiers, name tables and the answers to filesystem requests.

pub mod ino;
pub mod names;
pub mod table;
pub mod fs;
