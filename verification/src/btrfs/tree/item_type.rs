//! Btrfs B-tree item type bytes and their names.

use vstd::prelude::*;

verus! {

pub const INODE_ITEM: u8 = 1;
pub const INODE_REF: u8 = 12;
pub const INODE_EXTREF: u8 = 13;
pub const XATTR_ITEM: u8 = 24;
pub const VERITY_DESC_ITEM: u8 = 36;
pub const VERITY_MERKLE_ITEM: u8 = 37;
pub const ORPHAN_ITEM: u8 = 48;
pub const DIR_LOG_ITEM: u8 = 60;
pub const DIR_LOG_INDEX: u8 = 72;
pub const DIR_ITEM: u8 = 84;
pub const DIR_INDEX: u8 = 96;
pub const EXTENT_DATA: u8 = 108;
pub const EXTENT_CSUM: u8 = 128;
pub const ROOT_ITEM: u8 = 132;
pub const ROOT_BACKREF: u8 = 144;
pub const ROOT_REF: u8 = 156;
pub const EXTENT_ITEM: u8 = 168;
pub const METADATA_ITEM: u8 = 169;
pub const EXTENT_OWNER_REF: u8 = 172;
pub const TREE_BLOCK_REF: u8 = 176;
pub const EXTENT_DATA_REF: u8 = 178;
pub const SHARED_BLOCK_REF: u8 = 182;
pub const SHARED_DATA_REF: u8 = 184;
pub const BLOCK_GROUP_ITEM: u8 = 192;
pub const FREE_SPACE_INFO: u8 = 198;
pub const FREE_SPACE_EXTENT: u8 = 199;
pub const FREE_SPACE_BITMAP: u8 = 200;
pub const DEV_EXTENT: u8 = 204;
pub const DEV_ITEM: u8 = 216;
pub const CHUNK_ITEM: u8 = 228;
pub const RAID_STRIPE: u8 = 230;
pub const QGROUP_STATUS: u8 = 240;
pub const QGROUP_INFO: u8 = 242;
pub const QGROUP_LIMIT: u8 = 244;
pub const QGROUP_RELATION: u8 = 246;
pub const TEMPORARY_ITEM: u8 = 248;
pub const PERSISTENT_ITEM: u8 = 249;
pub const DEV_REPLACE: u8 = 250;
pub const UUID_SUBVOL: u8 = 251;
pub const UUID_RECEIVED_SUBVOL: u8 = 252;
pub const STRING_ITEM: u8 = 253;

/// The conventional name of the given value, if it is a known one.
pub open spec fn spec_name(t: u8) -> Option<Seq<char>> {
    if t == INODE_ITEM {
        Some("INODE_ITEM"@)
    } else if t == INODE_REF {
        Some("INODE_REF"@)
    } else if t == INODE_EXTREF {
        Some("INODE_EXTREF"@)
    } else if t == XATTR_ITEM {
        Some("XATTR_ITEM"@)
    } else if t == VERITY_DESC_ITEM {
        Some("VERITY_DESC_ITEM"@)
    } else if t == VERITY_MERKLE_ITEM {
        Some("VERITY_MERKLE_ITEM"@)
    } else if t == ORPHAN_ITEM {
        Some("ORPHAN_ITEM"@)
    } else if t == DIR_LOG_ITEM {
        Some("DIR_LOG_ITEM"@)
    } else if t == DIR_LOG_INDEX {
        Some("DIR_LOG_INDEX"@)
    } else if t == DIR_ITEM {
        Some("DIR_ITEM"@)
    } else if t == DIR_INDEX {
        Some("DIR_INDEX"@)
    } else if t == EXTENT_DATA {
        Some("EXTENT_DATA"@)
    } else if t == EXTENT_CSUM {
        Some("EXTENT_CSUM"@)
    } else if t == ROOT_ITEM {
        Some("ROOT_ITEM"@)
    } else if t == ROOT_BACKREF {
        Some("ROOT_BACKREF"@)
    } else if t == ROOT_REF {
        Some("ROOT_REF"@)
    } else if t == EXTENT_ITEM {
        Some("EXTENT_ITEM"@)
    } else if t == METADATA_ITEM {
        Some("METADATA_ITEM"@)
    } else if t == EXTENT_OWNER_REF {
        Some("EXTENT_OWNER_REF"@)
    } else if t == TREE_BLOCK_REF {
        Some("TREE_BLOCK_REF"@)
    } else if t == EXTENT_DATA_REF {
        Some("EXTENT_DATA_REF"@)
    } else if t == SHARED_BLOCK_REF {
        Some("SHARED_BLOCK_REF"@)
    } else if t == SHARED_DATA_REF {
        Some("SHARED_DATA_REF"@)
    } else if t == BLOCK_GROUP_ITEM {
        Some("BLOCK_GROUP_ITEM"@)
    } else if t == FREE_SPACE_INFO {
        Some("FREE_SPACE_INFO"@)
    } else if t == FREE_SPACE_EXTENT {
        Some("FREE_SPACE_EXTENT"@)
    } else if t == FREE_SPACE_BITMAP {
        Some("FREE_SPACE_BITMAP"@)
    } else if t == DEV_EXTENT {
        Some("DEV_EXTENT"@)
    } else if t == DEV_ITEM {
        Some("DEV_ITEM"@)
    } else if t == CHUNK_ITEM {
        Some("CHUNK_ITEM"@)
    } else if t == RAID_STRIPE {
        Some("RAID_STRIPE"@)
    } else if t == QGROUP_STATUS {
        Some("QGROUP_STATUS"@)
    } else if t == QGROUP_INFO {
        Some("QGROUP_INFO"@)
    } else if t == QGROUP_LIMIT {
        Some("QGROUP_LIMIT"@)
    } else if t == QGROUP_RELATION {
        Some("QGROUP_RELATION"@)
    } else if t == TEMPORARY_ITEM {
        Some("TEMPORARY_ITEM"@)
    } else if t == PERSISTENT_ITEM {
        Some("PERSISTENT_ITEM"@)
    } else if t == DEV_REPLACE {
        Some("DEV_REPLACE"@)
    } else if t == UUID_SUBVOL {
        Some("UUID_SUBVOL"@)
    } else if t == UUID_RECEIVED_SUBVOL {
        Some("UUID_RECEIVED_SUBVOL"@)
    } else if t == STRING_ITEM {
        Some("STRING_ITEM"@)
    } else {
        None
    }
}

/// Look up the conventional name of the given value.
pub fn name(t: u8) -> (r: Option<&'static str>)
    ensures
        match r {
            Some(s) => spec_name(t) == Some(s@),
            None => spec_name(t) is None,
        },
{
    if t == INODE_ITEM {
        Some("INODE_ITEM")
    } else if t == INODE_REF {
        Some("INODE_REF")
    } else if t == INODE_EXTREF {
        Some("INODE_EXTREF")
    } else if t == XATTR_ITEM {
        Some("XATTR_ITEM")
    } else if t == VERITY_DESC_ITEM {
        Some("VERITY_DESC_ITEM")
    } else if t == VERITY_MERKLE_ITEM {
        Some("VERITY_MERKLE_ITEM")
    } else if t == ORPHAN_ITEM {
        Some("ORPHAN_ITEM")
    } else if t == DIR_LOG_ITEM {
        Some("DIR_LOG_ITEM")
    } else if t == DIR_LOG_INDEX {
        Some("DIR_LOG_INDEX")
    } else if t == DIR_ITEM {
        Some("DIR_ITEM")
    } else if t == DIR_INDEX {
        Some("DIR_INDEX")
    } else if t == EXTENT_DATA {
        Some("EXTENT_DATA")
    } else if t == EXTENT_CSUM {
        Some("EXTENT_CSUM")
    } else if t == ROOT_ITEM {
        Some("ROOT_ITEM")
    } else if t == ROOT_BACKREF {
        Some("ROOT_BACKREF")
    } else if t == ROOT_REF {
        Some("ROOT_REF")
    } else if t == EXTENT_ITEM {
        Some("EXTENT_ITEM")
    } else if t == METADATA_ITEM {
        Some("METADATA_ITEM")
    } else if t == EXTENT_OWNER_REF {
        Some("EXTENT_OWNER_REF")
    } else if t == TREE_BLOCK_REF {
        Some("TREE_BLOCK_REF")
    } else if t == EXTENT_DATA_REF {
        Some("EXTENT_DATA_REF")
    } else if t == SHARED_BLOCK_REF {
        Some("SHARED_BLOCK_REF")
    } else if t == SHARED_DATA_REF {
        Some("SHARED_DATA_REF")
    } else if t == BLOCK_GROUP_ITEM {
        Some("BLOCK_GROUP_ITEM")
    } else if t == FREE_SPACE_INFO {
        Some("FREE_SPACE_INFO")
    } else if t == FREE_SPACE_EXTENT {
        Some("FREE_SPACE_EXTENT")
    } else if t == FREE_SPACE_BITMAP {
        Some("FREE_SPACE_BITMAP")
    } else if t == DEV_EXTENT {
        Some("DEV_EXTENT")
    } else if t == DEV_ITEM {
        Some("DEV_ITEM")
    } else if t == CHUNK_ITEM {
        Some("CHUNK_ITEM")
    } else if t == RAID_STRIPE {
        Some("RAID_STRIPE")
    } else if t == QGROUP_STATUS {
        Some("QGROUP_STATUS")
    } else if t == QGROUP_INFO {
        Some("QGROUP_INFO")
    } else if t == QGROUP_LIMIT {
        Some("QGROUP_LIMIT")
    } else if t == QGROUP_RELATION {
        Some("QGROUP_RELATION")
    } else if t == TEMPORARY_ITEM {
        Some("TEMPORARY_ITEM")
    } else if t == PERSISTENT_ITEM {
        Some("PERSISTENT_ITEM")
    } else if t == DEV_REPLACE {
        Some("DEV_REPLACE")
    } else if t == UUID_SUBVOL {
        Some("UUID_SUBVOL")
    } else if t == UUID_RECEIVED_SUBVOL {
        Some("UUID_RECEIVED_SUBVOL")
    } else if t == STRING_ITEM {
        Some("STRING_ITEM")
    } else {
        None
    }
}

} // verus!
