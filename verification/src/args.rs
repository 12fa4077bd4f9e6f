//! The settings that the server is built with.
use crate::auth::AuthConfig;
use crate::paths::LexicalPath;
use vstd::prelude::*;

verus! {

/// The settings of a server, once they have been read.
pub struct Args {
    pub serve_path: LexicalPath,
    pub auth: AuthConfig,
    /// Plain HTTP on the loopback interface is accepted.
    pub development: bool,
    /// The most seconds that a request may take.
    pub request_timeout: u64,
    pub max_connections: usize,
    pub max_concurrent_uploads: usize,
    pub max_concurrent_searches: usize,
    pub max_search_entries: usize,
    /// The bytes that stay free on the disk.
    pub min_free_space: u64,
}

} // verus!
