//! The revision of an entry, by which a client confirms what it saw.
use vstd::prelude::*;

verus! {

/// A revision of an entry: a digest of its identity, its owner and its path, eight
/// bytes at a time.
#[derive(Clone, Copy, Debug, Eq, PartialEq, Structural)]
pub struct TargetRevision {
    pub first: u64,
    pub second: u64,
    pub third: u64,
    pub fourth: u64,
}

} // verus!
