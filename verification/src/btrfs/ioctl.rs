//! Argument structures of the btrfs `TREE_SEARCH_V2` ioctl and the decoder
//! for the packed search headers that prefix every returned record.

use vstd::prelude::*;
use vstd::bytes::{spec_u32_from_le_bytes, spec_u64_from_le_bytes, u32_from_le_bytes, u64_from_le_bytes};
use vstd::slice::slice_subrange;

verus! {

/// Size in bytes of the record buffer a search call fills.
pub const SV2_BUF_SIZE: usize = 65536;

/// Size in bytes of the search header preceding each returned item:
/// three u64 fields and two u32 fields, packed little-endian.
pub const SEARCH_HEADER_SIZE: usize = 32;

/// Key range of a B-tree search: which tree, which object ids, offsets,
/// transaction ids and item types to return, and how many items at most.
#[derive(Debug, Clone, Copy, PartialEq, Eq, Structural)]
pub struct IoctlSearchKey {
    pub tree_id: u64,
    pub min_objectid: u64,
    pub max_objectid: u64,
    pub min_offset: u64,
    pub max_offset: u64,
    pub min_transid: u64,
    pub max_transid: u64,
    pub min_type: u32,
    pub max_type: u32,
    pub nr_items: u32,
}

impl IoctlSearchKey {
    /// A search key over the given ranges, asking for as many items as fit.
    pub fn new(
        tree_id: u64,
        min_objectid: u64,
        max_objectid: u64,
        min_offset: u64,
        max_offset: u64,
        min_transid: u64,
        max_transid: u64,
        min_type: u8,
        max_type: u8,
    ) -> (r: Self)
        ensures
            r == (IoctlSearchKey {
                tree_id,
                min_objectid,
                max_objectid,
                min_offset,
                max_offset,
                min_transid,
                max_transid,
                min_type: min_type as u32,
                max_type: max_type as u32,
                nr_items: u32::MAX,
            }),
    {
        IoctlSearchKey {
            tree_id,
            min_objectid,
            max_objectid,
            min_offset,
            max_offset,
            min_transid,
            max_transid,
            min_type: min_type as u32,
            max_type: max_type as u32,
            nr_items: u32::MAX,
        }
    }
}

/// The reusable argument block of a search call: the key and the 64 KiB
/// buffer the kernel fills with `SearchHeader` + item records.
pub struct Sv2Args {
    pub key: IoctlSearchKey,
    pub buf: Vec<u8>,
}

impl Sv2Args {
    /// The record buffer always keeps its full fixed size.
    pub open spec fn wf(&self) -> bool {
        self.buf@.len() == SV2_BUF_SIZE
    }

    /// Wrap a search key together with a zeroed record buffer.
    pub fn from_sk(sk: IoctlSearchKey) -> (r: Self)
        ensures
            r.key == sk,
            r.wf(),
            r.buf@ =~= Seq::new(SV2_BUF_SIZE as nat, |i: int| 0u8),
    {
        let buf: Vec<u8> = vec![0u8; SV2_BUF_SIZE];
        assert(buf@ =~= Seq::new(SV2_BUF_SIZE as nat, |i: int| 0u8));
        Sv2Args { key: sk, buf }
    }

    /// Read access to the record buffer.
    pub fn buf(&self) -> (r: &Vec<u8>)
        ensures
            r@ == self.buf@,
    {
        &self.buf
    }

    /// The record buffer's contents, for contracts.
    pub open spec fn spec_buf(&self) -> Seq<u8> {
        self.buf@
    }

    /// Replace the record buffer's contents, as the kernel does when the
    /// ioctl returns; the new contents must have the fixed buffer size.
    pub fn set_buf(&mut self, data: Vec<u8>)
        requires
            data@.len() == SV2_BUF_SIZE,
        ensures
            final(self).buf@ == data@,
            final(self).key == old(self).key,
            final(self).wf(),
    {
        self.buf = data;
    }

    /// Point the search key at one inode's extent items, restarting the
    /// offset range, as done before searching a new file.
    pub fn set_search_inode(&mut self, ino: u64)
        ensures
            final(self).key == (IoctlSearchKey {
                min_objectid: ino,
                max_objectid: ino,
                min_offset: 0,
                nr_items: u32::MAX,
                ..old(self).key
            }),
            final(self).buf@ == old(self).buf@,
    {
        self.key.min_objectid = ino;
        self.key.max_objectid = ino;
        self.key.min_offset = 0;
        self.key.nr_items = u32::MAX;
    }
}

/// The little-endian u64 stored at `buf[off .. off + 8]`.
pub open spec fn spec_le_u64_at(buf: Seq<u8>, off: int) -> u64 {
    spec_u64_from_le_bytes(buf.subrange(off, off + 8))
}

/// The little-endian u32 stored at `buf[off .. off + 4]`.
pub open spec fn spec_le_u32_at(buf: Seq<u8>, off: int) -> u32 {
    spec_u32_from_le_bytes(buf.subrange(off, off + 4))
}

/// Read the little-endian u64 at byte offset `off`.
pub fn le_u64_at(buf: &[u8], off: usize) -> (r: u64)
    requires
        off + 8 <= buf@.len(),
    ensures
        r == spec_le_u64_at(buf@, off as int),
{
    let n = buf.len();
    let s = slice_subrange(buf, off, off + 8);
    u64_from_le_bytes(s)
}

/// Read the little-endian u32 at byte offset `off`.
pub fn le_u32_at(buf: &[u8], off: usize) -> (r: u32)
    requires
        off + 4 <= buf@.len(),
    ensures
        r == spec_le_u32_at(buf@, off as int),
{
    let n = buf.len();
    let s = slice_subrange(buf, off, off + 4);
    u32_from_le_bytes(s)
}

/// The header the kernel writes before each returned item, decoded from its
/// packed little-endian form.
#[derive(Debug, Clone, Copy, PartialEq, Eq, Structural)]
pub struct SearchHeader {
    pub transid: u64,
    pub objectid: u64,
    pub offset: u64,
    pub item_type: u32,
    pub len: u32,
}

impl SearchHeader {
    /// The header encoded at the start of `buf`, as a mathematical value.
    pub open spec fn spec_from_raw(buf: Seq<u8>) -> SearchHeader {
        SearchHeader {
            transid: spec_le_u64_at(buf, 0),
            objectid: spec_le_u64_at(buf, 8),
            offset: spec_le_u64_at(buf, 16),
            item_type: spec_le_u32_at(buf, 24),
            len: spec_le_u32_at(buf, 28),
        }
    }

    /// Decode the header stored at the start of `buf`.
    pub fn from_raw(buf: &[u8]) -> (r: Self)
        requires
            buf@.len() >= SEARCH_HEADER_SIZE,
        ensures
            r == Self::spec_from_raw(buf@),
    {
        SearchHeader {
            transid: le_u64_at(buf, 0),
            objectid: le_u64_at(buf, 8),
            offset: le_u64_at(buf, 16),
            item_type: le_u32_at(buf, 24),
            len: le_u32_at(buf, 28),
        }
    }
}

} // verus!
