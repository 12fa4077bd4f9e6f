//! Decisions of the rooted filesystem: identities, names, and what to do around
//! each system call.
pub mod ancestors;
pub mod entry;
pub mod identity;
pub mod names;
pub mod publish;
pub mod readiness;
pub mod rename;
pub mod replacement;
pub mod resolve;
pub mod stage;
pub mod trash;
pub mod visit;
pub mod xattrs;
