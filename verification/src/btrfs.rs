//! Data model of btrfs file extents and the decoder for the packed
//! little-endian records that the `TREE_SEARCH_V2` ioctl returns.

use vstd::prelude::*;
use vstd::bytes::{spec_u16_from_le_bytes, spec_u64_from_le_bytes, u16_from_le_bytes, u64_to_le_bytes, spec_u64_to_le_bytes, u16_to_le_bytes, spec_u16_to_le_bytes, u32_to_le_bytes, spec_u32_to_le_bytes};
use vstd::slice::{slice_index_get, slice_subrange};
use crate::btrfs::ioctl::{le_u64_at, spec_le_u64_at, IoctlSearchKey, SearchHeader, Sv2Args, SEARCH_HEADER_SIZE, SV2_BUF_SIZE};

pub mod ioctl;
pub mod tree;

verus! {

/// Size in bytes of the fixed file-extent header that starts every
/// `EXTENT_DATA` item body.
pub const INLINE_HEADER_SIZE: usize = 21;

/// Size in bytes of a full regular or preallocated extent item body:
/// the fixed header followed by four u64 fields.
pub const FILE_EXTENT_SIZE: usize = 53;

/// Per-extent byte statistics: bytes physically stored on disk, logical
/// uncompressed bytes, and the bytes this particular reference covers.
#[derive(Debug, Clone, Copy, PartialEq, Eq, Structural)]
pub struct Stat {
    pub disk: u64,
    pub uncomp: u64,
    pub refd: u64,
}

impl Stat {
    /// A statistic is empty exactly when it covers no uncompressed bytes.
    pub fn is_empty(&self) -> (r: bool)
        ensures
            r == (self.uncomp == 0),
    {
        self.uncomp == 0
    }

    /// Compression ratio in percent: `disk * 100 / uncomp`.
    pub fn get_percent(&self) -> (r: u64)
        requires
            self.uncomp != 0,
            self.disk * 100 <= u64::MAX,
        ensures
            r == self.disk as int * 100 / self.uncomp as int,
    {
        self.disk * 100 / self.uncomp
    }
}

/// The transparent compression algorithm recorded in a file extent.
#[derive(Debug, Clone, Copy, PartialEq, Eq, Structural)]
pub enum Compression {
    NoComp,
    Zlib,
    Lzo,
    Zstd,
}

impl Compression {
    /// Index of this compression class in per-class statistic tables.
    pub fn as_usize(self) -> (r: usize)
        ensures
            r == self.spec_index(),
    {
        match self {
            Compression::NoComp => 0,
            Compression::Zlib => 1,
            Compression::Lzo => 2,
            Compression::Zstd => 3,
        }
    }

    /// The index as a mathematical value, always below 4.
    pub open spec fn spec_index(self) -> int {
        match self {
            Compression::NoComp => 0,
            Compression::Zlib => 1,
            Compression::Lzo => 2,
            Compression::Zstd => 3,
        }
    }

    /// Decode the on-disk compression byte; bytes above 3 are invalid.
    pub fn from_u8(n: u8) -> (r: Self)
        requires
            n <= 3,
        ensures
            r.spec_index() == n,
    {
        match n {
            0 => Compression::NoComp,
            1 => Compression::Zlib,
            2 => Compression::Lzo,
            _ => Compression::Zstd,
        }
    }

    /// Row label of this class in the output table.
    pub fn name(&self) -> (r: &'static str)
        ensures
            r@ == self.spec_name(),
    {
        match self {
            Compression::NoComp => "none",
            Compression::Zlib => "zlib",
            Compression::Lzo => "lzo",
            Compression::Zstd => "zstd",
        }
    }

    /// The row label as a character sequence.
    pub open spec fn spec_name(self) -> Seq<char> {
        match self {
            Compression::NoComp => "none"@,
            Compression::Zlib => "zlib"@,
            Compression::Lzo => "lzo"@,
            Compression::Zstd => "zstd"@,
        }
    }
}

/// The kind of a file extent: stored inline in the B-tree item, a regular
/// data extent, or preallocated space not yet written.
#[derive(Debug, Clone, Copy, PartialEq, Eq, Structural)]
pub enum ExtentType {
    Inline,
    Regular,
    Prealloc,
}

impl ExtentType {
    /// Decode the on-disk extent type byte; bytes above 2 are invalid.
    pub fn from_u8(n: u8) -> (r: Self)
        requires
            n <= 2,
        ensures
            n == 0 ==> r == ExtentType::Inline,
            n == 1 ==> r == ExtentType::Regular,
            n == 2 ==> r == ExtentType::Prealloc,
    {
        match n {
            0 => ExtentType::Inline,
            1 => ExtentType::Regular,
            _ => ExtentType::Prealloc,
        }
    }
}

/// One decoded extent reference: the pipeline's atomic unit.
///
/// `disk_bytenr` holds the physical extent's identity, already shifted right
/// by 12 bits (a 4 KiB-aligned block number); it is 0 for inline extents,
/// which are unique to their host file.
#[derive(Debug, Clone, Copy, PartialEq, Eq, Structural)]
pub struct ExtentInfo {
    pub objectid: u64,
    pub offset: u64,
    pub disk_bytenr: u64,
    pub kind: ExtentType,
    pub compression: Compression,
    pub stat: Stat,
}

impl ExtentInfo {
    /// Build an extent record from its parts.
    pub fn new(
        objectid: u64,
        offset: u64,
        disk_bytenr: u64,
        kind: ExtentType,
        compression: Compression,
        stat: Stat,
    ) -> (r: Self)
        ensures
            r == (ExtentInfo { objectid, offset, disk_bytenr, kind, compression, stat }),
    {
        ExtentInfo { objectid, offset, disk_bytenr, kind, compression, stat }
    }

    /// Identity of the physical extent (the shifted disk byte number).
    pub fn key(&self) -> (r: u64)
        ensures
            r == self.disk_bytenr,
    {
        self.disk_bytenr
    }

    /// The extent's kind.
    pub fn kind(&self) -> (r: ExtentType)
        ensures
            r == self.kind,
    {
        self.kind
    }

    /// The extent's compression class.
    pub fn comp(&self) -> (r: Compression)
        ensures
            r == self.compression,
    {
        self.compression
    }

    /// The extent's byte statistics.
    pub fn stat(&self) -> (r: Stat)
        ensures
            r == self.stat,
    {
        self.stat
    }
}

/// A type decodable from packed little-endian bytes.
pub trait FromRaw: Sized {
    /// How many bytes the decoder reads.
    spec fn spec_min_size() -> int;

    /// The value encoded at the start of `buf`, as a mathematical value.
    spec fn spec_from_le(buf: Seq<u8>) -> Self;

    /// Size in bytes of the encoded form this value would occupy.
    fn raw_size(&self) -> (r: u32)
        ensures
            r as int == Self::spec_min_size(),
    ;

    /// Decode the value stored at the start of `buf`.
    fn from_le_raw(buf: &[u8]) -> (r: Self)
        requires
            buf@.len() >= Self::spec_min_size(),
        ensures
            r == Self::spec_from_le(buf@),
    ;
}

/// The body of an `EXTENT_DATA` item: a fixed header of generation,
/// logical size, compression and kind, then (for regular and preallocated
/// extents) the location and size of the data on disk.
#[derive(Debug, Clone, Copy, PartialEq, Eq, Structural)]
pub struct FileExtent {
    pub generation: u64,
    pub ram_bytes: u64,
    pub compression: u8,
    pub encryption: u8,
    pub other_encoding: u16,
    pub extent_type: u8,
    pub disk_bytenr: u64,
    pub disk_num_bytes: u64,
    pub offset: u64,
    pub num_bytes: u64,
}

impl FileExtent {
    /// Size in bytes of the fixed header that precedes any inline data.
    pub fn inline_header_size() -> (r: usize)
        ensures
            r == INLINE_HEADER_SIZE,
    {
        INLINE_HEADER_SIZE
    }

    /// Whether this extent's data is stored inline in the B-tree item.
    pub fn is_inline(&self) -> (r: bool)
        ensures
            r == (self.extent_type == 0),
    {
        self.extent_type == 0
    }

    /// The little-endian encoding of this record: every field in order,
    /// with no padding.
    pub open spec fn spec_encode(self) -> Seq<u8> {
        spec_u64_to_le_bytes(self.generation) + spec_u64_to_le_bytes(self.ram_bytes)
            + seq![self.compression, self.encryption] + spec_u16_to_le_bytes(self.other_encoding)
            + seq![self.extent_type] + spec_u64_to_le_bytes(self.disk_bytenr)
            + spec_u64_to_le_bytes(self.disk_num_bytes) + spec_u64_to_le_bytes(self.offset)
            + spec_u64_to_le_bytes(self.num_bytes)
    }

    /// Encode this record in its packed little-endian form.
    pub fn to_le_bytes(&self) -> (v: Vec<u8>)
        ensures
            v@ == self.spec_encode(),
            v@.len() == FILE_EXTENT_SIZE,
    {
        proof {
            vstd::bytes::lemma_auto_spec_u64_to_from_le_bytes();
            vstd::bytes::lemma_auto_spec_u16_to_from_le_bytes();
        }
        let mut v = u64_to_le_bytes(self.generation);
        let mut t = u64_to_le_bytes(self.ram_bytes);
        v.append(&mut t);
        v.push(self.compression);
        v.push(self.encryption);
        let mut t = u16_to_le_bytes(self.other_encoding);
        v.append(&mut t);
        v.push(self.extent_type);
        let mut t = u64_to_le_bytes(self.disk_bytenr);
        v.append(&mut t);
        let mut t = u64_to_le_bytes(self.disk_num_bytes);
        v.append(&mut t);
        let mut t = u64_to_le_bytes(self.offset);
        v.append(&mut t);
        let mut t = u64_to_le_bytes(self.num_bytes);
        v.append(&mut t);
        proof {
            assert(v@ =~= self.spec_encode());
        }
        v
    }
}

impl FromRaw for FileExtent {
    open spec fn spec_min_size() -> int {
        FILE_EXTENT_SIZE as int
    }

    open spec fn spec_from_le(buf: Seq<u8>) -> Self {
        FileExtent {
            generation: spec_le_u64_at(buf, 0),
            ram_bytes: spec_le_u64_at(buf, 8),
            compression: buf[16],
            encryption: buf[17],
            other_encoding: spec_u16_from_le_bytes(buf.subrange(18, 20)),
            extent_type: buf[20],
            disk_bytenr: spec_le_u64_at(buf, 21),
            disk_num_bytes: spec_le_u64_at(buf, 29),
            offset: spec_le_u64_at(buf, 37),
            num_bytes: spec_le_u64_at(buf, 45),
        }
    }

    fn raw_size(&self) -> (r: u32) {
        53
    }

    fn from_le_raw(buf: &[u8]) -> (r: Self) {
        let n = buf.len();
        FileExtent {
            generation: le_u64_at(buf, 0),
            ram_bytes: le_u64_at(buf, 8),
            compression: *slice_index_get(buf, 16),
            encryption: *slice_index_get(buf, 17),
            other_encoding: u16_from_le_bytes(slice_subrange(buf, 18, 20)),
            extent_type: *slice_index_get(buf, 20),
            disk_bytenr: le_u64_at(buf, 21),
            disk_num_bytes: le_u64_at(buf, 29),
            offset: le_u64_at(buf, 37),
            num_bytes: le_u64_at(buf, 45),
        }
    }
}

/// Round-trip of the packed encoding: decoding an encoded record yields the
/// record itself.
pub proof fn lemma_file_extent_encode_decode(x: FileExtent)
    ensures
        FileExtent::spec_from_le(x.spec_encode()) == x,
{
    vstd::bytes::lemma_auto_spec_u64_to_from_le_bytes();
    vstd::bytes::lemma_auto_spec_u16_to_from_le_bytes();
    let e = x.spec_encode();
    assert(e.subrange(0, 8) =~= spec_u64_to_le_bytes(x.generation));
    assert(e.subrange(8, 16) =~= spec_u64_to_le_bytes(x.ram_bytes));
    assert(e[16] == x.compression);
    assert(e[17] == x.encryption);
    assert(e.subrange(18, 20) =~= spec_u16_to_le_bytes(x.other_encoding));
    assert(e[20] == x.extent_type);
    assert(e.subrange(21, 29) =~= spec_u64_to_le_bytes(x.disk_bytenr));
    assert(e.subrange(29, 37) =~= spec_u64_to_le_bytes(x.disk_num_bytes));
    assert(e.subrange(37, 45) =~= spec_u64_to_le_bytes(x.offset));
    assert(e.subrange(45, 53) =~= spec_u64_to_le_bytes(x.num_bytes));
}

/// Why an `EXTENT_DATA` record was rejected.  Such a failure marks the whole
/// run as failed; the offending file is abandoned.
#[derive(Debug, Clone, Copy, PartialEq, Eq, Structural)]
pub enum ParseError {
    /// The compression byte is above 3.
    BadCompression(u8),
    /// The extent type byte is above 2.
    BadType(u8),
    /// A regular or preallocated item whose length is not exactly 53 bytes.
    BadLength(u32),
    /// An inline item too short to hold even the fixed extent header.
    BadInlineLength(u32),
    /// A regular or preallocated extent whose disk byte number is not
    /// 4 KiB aligned.
    Misaligned(u64),
}

/// One record returned by a tree search: the search header and the decoded
/// `EXTENT_DATA` item body that follows it.
#[derive(Debug, Clone, Copy, PartialEq, Eq, Structural)]
pub struct IoctlSearchItem {
    pub header: SearchHeader,
    pub item: FileExtent,
}

/// What `parse` returns for a given record: the extent to account,
/// `None` for a hole, or the reason the record is invalid.
pub open spec fn spec_parse(header: SearchHeader, item: FileExtent) -> Result<
    Option<ExtentInfo>,
    ParseError,
> {
    if item.compression > 3 {
        Err(ParseError::BadCompression(item.compression))
    } else if item.extent_type > 2 {
        Err(ParseError::BadType(item.extent_type))
    } else if item.extent_type == 0 {
        if header.len < INLINE_HEADER_SIZE {
            Err(ParseError::BadInlineLength(header.len))
        } else {
            Ok(Some(ExtentInfo {
                objectid: header.objectid,
                offset: header.offset,
                disk_bytenr: 0,
                kind: ExtentType::Inline,
                compression: spec_compression_of(item.compression as int),
                stat: Stat {
                    disk: (header.len - INLINE_HEADER_SIZE) as u64,
                    uncomp: item.ram_bytes,
                    refd: item.ram_bytes,
                },
            }))
        }
    } else if header.len != FILE_EXTENT_SIZE {
        Err(ParseError::BadLength(header.len))
    } else if item.disk_bytenr == 0 {
        Ok(None)
    } else if item.disk_bytenr & 0xfff != 0 {
        Err(ParseError::Misaligned(item.disk_bytenr))
    } else {
        Ok(Some(ExtentInfo {
            objectid: header.objectid,
            offset: header.offset,
            disk_bytenr: item.disk_bytenr >> 12,
            kind: if item.extent_type == 1 {
                ExtentType::Regular
            } else {
                ExtentType::Prealloc
            },
            compression: spec_compression_of(item.compression as int),
            stat: Stat {
                disk: item.disk_num_bytes,
                uncomp: item.ram_bytes,
                refd: item.num_bytes,
            },
        }))
    }
}

/// The compression class with the given index.
pub open spec fn spec_compression_of(n: int) -> Compression {
    if n == 0 {
        Compression::NoComp
    } else if n == 1 {
        Compression::Zlib
    } else if n == 2 {
        Compression::Lzo
    } else {
        Compression::Zstd
    }
}

impl IoctlSearchItem {
    /// Decode the record stored at the start of `buf`: the search header,
    /// then the item body.
    pub fn from_le_raw(buf: &[u8]) -> (r: Self)
        requires
            buf@.len() >= SEARCH_HEADER_SIZE + FILE_EXTENT_SIZE,
        ensures
            r.header == SearchHeader::spec_from_raw(buf@),
            r.item == FileExtent::spec_from_le(
                buf@.subrange(SEARCH_HEADER_SIZE as int, buf@.len() as int),
            ),
    {
        let n = buf.len();
        let header = SearchHeader::from_raw(buf);
        let item = FileExtent::from_le_raw(slice_subrange(buf, SEARCH_HEADER_SIZE, n));
        IoctlSearchItem { header, item }
    }

    /// Classify this record: the extent reference it describes, `None` for
    /// a hole (a regular extent with disk byte number 0), or the reason it
    /// is invalid.  Never panics; corrupt bytes fail the record instead.
    pub fn parse(&self) -> (r: Result<Option<ExtentInfo>, ParseError>)
        ensures
            r == spec_parse(self.header, self.item),
    {
        let hlen = self.header.len;
        let ram_bytes = self.item.ram_bytes;
        if self.item.compression > 3 {
            return Err(ParseError::BadCompression(self.item.compression));
        }
        if self.item.extent_type > 2 {
            return Err(ParseError::BadType(self.item.extent_type));
        }
        let compression = Compression::from_u8(self.item.compression);
        let kind = ExtentType::from_u8(self.item.extent_type);
        let objectid = self.header.objectid;
        let offset = self.header.offset;
        if self.item.is_inline() {
            if hlen < INLINE_HEADER_SIZE as u32 {
                return Err(ParseError::BadInlineLength(hlen));
            }
            let disk_num_bytes = (hlen - INLINE_HEADER_SIZE as u32) as u64;
            return Ok(Some(ExtentInfo {
                objectid,
                offset,
                disk_bytenr: 0,
                kind,
                compression,
                stat: Stat { disk: disk_num_bytes, uncomp: ram_bytes, refd: ram_bytes },
            }));
        }
        if hlen != FILE_EXTENT_SIZE as u32 {
            return Err(ParseError::BadLength(hlen));
        }
        let disk_bytenr = self.item.disk_bytenr;
        if disk_bytenr == 0 {
            // a hole: no physical extent backs this range
            return Ok(None);
        }
        if disk_bytenr & 0xfff != 0 {
            return Err(ParseError::Misaligned(disk_bytenr));
        }
        let key = disk_bytenr >> 12;
        Ok(Some(ExtentInfo {
            objectid,
            offset,
            disk_bytenr: key,
            kind,
            compression,
            stat: Stat {
                disk: self.item.disk_num_bytes,
                uncomp: ram_bytes,
                refd: self.item.num_bytes,
            },
        }))
    }
}

/// Round-trip of the record parser: a well-formed extent record, encoded
/// little-endian and decoded back, parses to exactly the extent reference
/// its fields describe; the only information dropped is the low 12 zero
/// bits of an aligned disk byte number, which the shift recovers.
pub proof fn lemma_parser_roundtrip(h: SearchHeader, x: FileExtent)
    requires
        x.compression <= 3,
        x.extent_type <= 2,
        x.extent_type == 0 ==> h.len >= INLINE_HEADER_SIZE,
        x.extent_type != 0 ==> h.len == FILE_EXTENT_SIZE,
        x.extent_type != 0 ==> x.disk_bytenr != 0 && x.disk_bytenr & 0xfff == 0,
    ensures
        spec_parse(h, FileExtent::spec_from_le(x.spec_encode())) == spec_parse(h, x),
        x.extent_type == 0 ==> spec_parse(h, x) == Ok::<Option<ExtentInfo>, ParseError>(
            Some(ExtentInfo {
                objectid: h.objectid,
                offset: h.offset,
                disk_bytenr: 0,
                kind: ExtentType::Inline,
                compression: spec_compression_of(x.compression as int),
                stat: Stat {
                    disk: (h.len - INLINE_HEADER_SIZE) as u64,
                    uncomp: x.ram_bytes,
                    refd: x.ram_bytes,
                },
            }),
        ),
        x.extent_type != 0 ==> spec_parse(h, x) == Ok::<Option<ExtentInfo>, ParseError>(
            Some(ExtentInfo {
                objectid: h.objectid,
                offset: h.offset,
                disk_bytenr: x.disk_bytenr >> 12,
                kind: if x.extent_type == 1 {
                    ExtentType::Regular
                } else {
                    ExtentType::Prealloc
                },
                compression: spec_compression_of(x.compression as int),
                stat: Stat {
                    disk: x.disk_num_bytes,
                    uncomp: x.ram_bytes,
                    refd: x.num_bytes,
                },
            }),
        ),
        x.extent_type != 0 ==> ((x.disk_bytenr >> 12) << 12) == x.disk_bytenr,
{
    lemma_file_extent_encode_decode(x);
    if x.extent_type != 0 {
        let b = x.disk_bytenr;
        assert(b & 0xfff == 0 ==> ((b >> 12) << 12) == b) by (bit_vector);
    }
}

/// The kernel returned fewer bytes than its record count promises.
#[derive(Debug, Clone, Copy, PartialEq, Eq, Structural)]
pub enum CursorError {
    Truncated,
}

/// Cursor over the records of a search buffer, with the pagination rule of
/// the search ioctl: a call that returned no more than 512 items is the
/// last one; otherwise the search resumes above the last seen offset.
///
/// The caller owns the ioctl itself: while `need_ioctl()` holds it issues
/// the call and reports the result through `on_ioctl_return`, then drains
/// records with `next_record` until `finish()` or the next `need_ioctl()`.
#[derive(Debug, Clone, Copy, PartialEq, Eq, Structural)]
pub struct Sv2ItemIter {
    pub pos: usize,
    pub nrest_item: u32,
    pub last: bool,
}

impl Sv2ItemIter {
    /// Another ioctl call is owed before more records can be read.
    pub open spec fn spec_need_ioctl(&self) -> bool {
        self.nrest_item == 0 && !self.last
    }

    /// All records of the search have been read.
    pub open spec fn spec_finish(&self) -> bool {
        self.nrest_item == 0 && self.last
    }

    /// Start a search over `sv2_arg`: restart the offset range and ask for
    /// as many items as fit.  The fresh cursor first owes an ioctl call.
    pub fn new(sv2_arg: &mut Sv2Args) -> (r: Self)
        ensures
            final(sv2_arg).key == (IoctlSearchKey {
                min_offset: 0,
                nr_items: u32::MAX,
                ..old(sv2_arg).key
            }),
            final(sv2_arg).buf@ == old(sv2_arg).buf@,
            r == (Sv2ItemIter { pos: 0, nrest_item: 0, last: false }),
    {
        sv2_arg.key.nr_items = u32::MAX;
        sv2_arg.key.min_offset = 0;
        Sv2ItemIter { pos: 0, nrest_item: 0, last: false }
    }

    /// Whether another ioctl call is owed now.
    pub fn need_ioctl(&self) -> (r: bool)
        ensures
            r == self.spec_need_ioctl(),
    {
        self.nrest_item == 0 && !self.last
    }

    /// Whether the search is exhausted.
    pub fn finish(&self) -> (r: bool)
        ensures
            r == self.spec_finish(),
    {
        self.nrest_item == 0 && self.last
    }

    /// Absorb a returned ioctl call: the kernel wrote the number of records
    /// into the key's item count; a return below the kernel's internal cap
    /// of 512 means everything fit and this call was the last.
    pub fn on_ioctl_return(&mut self, sv2_arg: &Sv2Args)
        ensures
            final(self).nrest_item == sv2_arg.key.nr_items,
            final(self).last == (sv2_arg.key.nr_items <= 512),
            final(self).pos == 0,
    {
        self.nrest_item = sv2_arg.key.nr_items;
        self.last = self.nrest_item <= 512;
        self.pos = 0;
    }

    /// Read the next record out of the buffer.  Returns `Ok(None)` when the
    /// search is exhausted; `Err` when the kernel's record count points past
    /// the end of the buffer, which also ends the cursor.  When records
    /// remain after this one but this call's items are used up, the search
    /// key is advanced past the record's offset for the next ioctl call
    /// (saturating at the largest offset).
    pub fn next_record(&mut self, sv2_arg: &mut Sv2Args) -> (r: Result<
        Option<IoctlSearchItem>,
        CursorError,
    >)
        requires
            !old(self).spec_need_ioctl(),
            old(sv2_arg).wf(),
            old(self).pos <= SV2_BUF_SIZE,
        ensures
            final(sv2_arg).wf(),
            final(sv2_arg).buf@ == old(sv2_arg).buf@,
            final(self).pos <= SV2_BUF_SIZE,
            old(self).spec_finish() ==> r == Ok::<Option<IoctlSearchItem>, CursorError>(None)
                && *final(self) == *old(self) && *final(sv2_arg) == *old(sv2_arg),
            !old(self).spec_finish() ==> ({
                let buf = old(sv2_arg).buf@;
                if old(self).pos + SEARCH_HEADER_SIZE + FILE_EXTENT_SIZE <= SV2_BUF_SIZE {
                    let rec = IoctlSearchItem {
                        header: SearchHeader::spec_from_raw(
                            buf.subrange(old(self).pos as int, buf.len() as int),
                        ),
                        item: FileExtent::spec_from_le(
                            buf.subrange(
                                old(self).pos + SEARCH_HEADER_SIZE,
                                buf.len() as int,
                            ),
                        ),
                    };
                    &&& r == Ok::<Option<IoctlSearchItem>, CursorError>(Some(rec))
                    &&& final(self).nrest_item == old(self).nrest_item - 1
                    &&& final(self).last == old(self).last
                    &&& final(self).pos == if old(self).pos + SEARCH_HEADER_SIZE
                        + rec.header.len <= SV2_BUF_SIZE {
                        old(self).pos + SEARCH_HEADER_SIZE + rec.header.len
                    } else {
                        SV2_BUF_SIZE as int
                    }
                    &&& final(sv2_arg).key == if final(self).spec_need_ioctl() {
                        IoctlSearchKey {
                            min_offset: if rec.header.offset < u64::MAX {
                                (rec.header.offset + 1) as u64
                            } else {
                                u64::MAX
                            },
                            nr_items: u32::MAX,
                            ..old(sv2_arg).key
                        }
                    } else {
                        old(sv2_arg).key
                    }
                } else {
                    &&& r == Err::<Option<IoctlSearchItem>, CursorError>(CursorError::Truncated)
                    &&& final(self).spec_finish()
                    &&& final(sv2_arg).key == old(sv2_arg).key
                }
            }),
    {
        if self.finish() {
            return Ok(None);
        }
        if self.pos > SV2_BUF_SIZE - SEARCH_HEADER_SIZE - FILE_EXTENT_SIZE {
            self.nrest_item = 0;
            self.last = true;
            return Err(CursorError::Truncated);
        }
        let n = sv2_arg.buf.len();
        let rec = IoctlSearchItem::from_le_raw(slice_subrange(sv2_arg.buf.as_slice(), self.pos, n));
        proof {
            let buf = old(sv2_arg).buf@;
            let p = old(self).pos as int;
            assert(buf.subrange(p, buf.len() as int).subrange(
                SEARCH_HEADER_SIZE as int,
                buf.len() - p,
            ) =~= buf.subrange(p + SEARCH_HEADER_SIZE, buf.len() as int));
        }
        let hlen = rec.header.len;
        let advance = (SEARCH_HEADER_SIZE as u64) + (hlen as u64);
        if (self.pos as u64) + advance <= SV2_BUF_SIZE as u64 {
            self.pos = self.pos + SEARCH_HEADER_SIZE + (hlen as usize);
        } else {
            self.pos = SV2_BUF_SIZE;
        }
        self.nrest_item = self.nrest_item - 1;
        if self.need_ioctl() {
            sv2_arg.key.min_offset = if rec.header.offset < u64::MAX {
                rec.header.offset + 1
            } else {
                u64::MAX
            };
            sv2_arg.key.nr_items = u32::MAX;
        }
        Ok(Some(rec))
    }
}

} // verus!
