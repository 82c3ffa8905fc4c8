use vstd::prelude::*;

use crate::key::Key;

verus! {

/// A node of the tree that key bindings are matched against: one key and the
/// nodes for the keys that may follow it.
pub struct Sequence {
    pub key: Key,
    pub followers: Vec<Sequence>,
}

} // verus!
