//! Well-known btrfs tree object ids and their names.

use vstd::prelude::*;

verus! {

pub const ROOT_TREE: u64 = 1;
pub const EXTENT_TREE: u64 = 2;
pub const CHUNK_TREE: u64 = 3;
pub const DEV_TREE: u64 = 4;
pub const FS_TREE: u64 = 5;
pub const ROOT_TREE_DIR: u64 = 6;
pub const CSUM_TREE: u64 = 7;
pub const QUOTA_TREE: u64 = 8;
pub const UUID_TREE: u64 = 9;
pub const FREE_SPACE_TREE: u64 = 10;
pub const BLOCK_GROUP_TREE: u64 = 11;
pub const RAID_STRIPE_TREE: u64 = 12;
pub const BALANCE: u64 = 0xFFFF_FFFF_FFFF_FFFC;
pub const ORPHAN: u64 = 0xFFFF_FFFF_FFFF_FFFB;
pub const TREE_LOG: u64 = 0xFFFF_FFFF_FFFF_FFFA;
pub const TREE_LOG_FIXUP: u64 = 0xFFFF_FFFF_FFFF_FFF9;
pub const TREE_RELOC: u64 = 0xFFFF_FFFF_FFFF_FFF8;
pub const DATA_RELOC_TREE: u64 = 0xFFFF_FFFF_FFFF_FFF7;
pub const EXTENT_CSUM: u64 = 0xFFFF_FFFF_FFFF_FFF6;
pub const FREE_SPACE: u64 = 0xFFFF_FFFF_FFFF_FFF5;
pub const FREE_INO: u64 = 0xFFFF_FFFF_FFFF_FFF4;

/// The conventional name of the given value, if it is a known one.
pub open spec fn spec_name(objectid: u64) -> Option<Seq<char>> {
    if objectid == ROOT_TREE {
        Some("ROOT_TREE"@)
    } else if objectid == EXTENT_TREE {
        Some("EXTENT_TREE"@)
    } else if objectid == CHUNK_TREE {
        Some("CHUNK_TREE"@)
    } else if objectid == DEV_TREE {
        Some("DEV_TREE"@)
    } else if objectid == FS_TREE {
        Some("FS_TREE"@)
    } else if objectid == ROOT_TREE_DIR {
        Some("ROOT_TREE_DIR"@)
    } else if objectid == CSUM_TREE {
        Some("CSUM_TREE"@)
    } else if objectid == QUOTA_TREE {
        Some("QUOTA_TREE"@)
    } else if objectid == UUID_TREE {
        Some("UUID_TREE"@)
    } else if objectid == FREE_SPACE_TREE {
        Some("FREE_SPACE_TREE"@)
    } else if objectid == BLOCK_GROUP_TREE {
        Some("BLOCK_GROUP_TREE"@)
    } else if objectid == RAID_STRIPE_TREE {
        Some("RAID_STRIPE_TREE"@)
    } else if objectid == BALANCE {
        Some("BALANCE"@)
    } else if objectid == ORPHAN {
        Some("ORPHAN"@)
    } else if objectid == TREE_LOG {
        Some("TREE_LOG"@)
    } else if objectid == TREE_LOG_FIXUP {
        Some("TREE_LOG_FIXUP"@)
    } else if objectid == TREE_RELOC {
        Some("TREE_RELOC"@)
    } else if objectid == DATA_RELOC_TREE {
        Some("DATA_RELOC_TREE"@)
    } else if objectid == EXTENT_CSUM {
        Some("EXTENT_CSUM"@)
    } else if objectid == FREE_SPACE {
        Some("FREE_SPACE"@)
    } else if objectid == FREE_INO {
        Some("FREE_INO"@)
    } else {
        None
    }
}

/// Look up the conventional name of the given value.
pub fn name(objectid: u64) -> (r: Option<&'static str>)
    ensures
        match r {
            Some(s) => spec_name(objectid) == Some(s@),
            None => spec_name(objectid) is None,
        },
{
    if objectid == ROOT_TREE {
        Some("ROOT_TREE")
    } else if objectid == EXTENT_TREE {
        Some("EXTENT_TREE")
    } else if objectid == CHUNK_TREE {
        Some("CHUNK_TREE")
    } else if objectid == DEV_TREE {
        Some("DEV_TREE")
    } else if objectid == FS_TREE {
        Some("FS_TREE")
    } else if objectid == ROOT_TREE_DIR {
        Some("ROOT_TREE_DIR")
    } else if objectid == CSUM_TREE {
        Some("CSUM_TREE")
    } else if objectid == QUOTA_TREE {
        Some("QUOTA_TREE")
    } else if objectid == UUID_TREE {
        Some("UUID_TREE")
    } else if objectid == FREE_SPACE_TREE {
        Some("FREE_SPACE_TREE")
    } else if objectid == BLOCK_GROUP_TREE {
        Some("BLOCK_GROUP_TREE")
    } else if objectid == RAID_STRIPE_TREE {
        Some("RAID_STRIPE_TREE")
    } else if objectid == BALANCE {
        Some("BALANCE")
    } else if objectid == ORPHAN {
        Some("ORPHAN")
    } else if objectid == TREE_LOG {
        Some("TREE_LOG")
    } else if objectid == TREE_LOG_FIXUP {
        Some("TREE_LOG_FIXUP")
    } else if objectid == TREE_RELOC {
        Some("TREE_RELOC")
    } else if objectid == DATA_RELOC_TREE {
        Some("DATA_RELOC_TREE")
    } else if objectid == EXTENT_CSUM {
        Some("EXTENT_CSUM")
    } else if objectid == FREE_SPACE {
        Some("FREE_SPACE")
    } else if objectid == FREE_INO {
        Some("FREE_INO")
    } else {
        None
    }
}

} // verus!
