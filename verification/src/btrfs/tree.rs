//! Constants of the btrfs B-tree: well-known tree object ids and item type
//! bytes, with lookup of their conventional names.

use vstd::prelude::*;

pub mod item_type;
pub mod objectid;

verus! {

/// A B-tree key: which object, which kind of item, and the item's offset.
#[derive(Debug, Clone, Copy, PartialEq, Eq, Structural)]
pub struct Key {
    pub objectid: u64,
    pub item_type: u8,
    pub offset: u64,
}

} // verus!
