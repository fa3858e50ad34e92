use xsz::btrfs::ioctl::{IoctlSearchKey, SearchHeader, Sv2Args, SEARCH_HEADER_SIZE, SV2_BUF_SIZE};
use xsz::btrfs::tree::{item_type, objectid};
use xsz::btrfs::{
    Compression, CursorError, ExtentType, FileExtent, IoctlSearchItem, ParseError, Sv2ItemIter,
    FILE_EXTENT_SIZE,
};

fn extent(compression: u8, extent_type: u8, disk_bytenr: u64) -> FileExtent {
    FileExtent {
        generation: 7,
        ram_bytes: 4096,
        compression,
        encryption: 0,
        other_encoding: 0,
        extent_type,
        disk_bytenr,
        disk_num_bytes: 4096,
        offset: 0,
        num_bytes: 4096,
    }
}

fn header(objectid: u64, offset: u64, len: u32) -> SearchHeader {
    SearchHeader { transid: 1, objectid, offset, item_type: 108, len }
}

#[test]
fn file_extent_encode_decode() {
    let x = FileExtent {
        generation: 0x0102030405060708,
        ram_bytes: 0x1112131415161718,
        compression: 2,
        encryption: 0,
        other_encoding: 0x2122,
        extent_type: 1,
        disk_bytenr: 0x3132333435363738,
        disk_num_bytes: 0x4142434445464748,
        offset: 0x5152535455565758,
        num_bytes: 0x6162636465666768,
    };
    let bytes = x.to_le_bytes();
    assert_eq!(bytes.len(), FILE_EXTENT_SIZE);
    // packed little-endian: generation's low byte first
    assert_eq!(bytes[0], 0x08);
    assert_eq!(bytes[16], 2);
    assert_eq!(bytes[20], 1);
    let back = <FileExtent as xsz::btrfs::FromRaw>::from_le_raw(&bytes);
    assert_eq!(back, x);
}

#[test]
fn search_header_from_raw() {
    let mut buf = Vec::new();
    buf.extend_from_slice(&1u64.to_le_bytes());
    buf.extend_from_slice(&257u64.to_le_bytes());
    buf.extend_from_slice(&8192u64.to_le_bytes());
    buf.extend_from_slice(&108u32.to_le_bytes());
    buf.extend_from_slice(&53u32.to_le_bytes());
    assert_eq!(buf.len(), SEARCH_HEADER_SIZE);
    let h = SearchHeader::from_raw(&buf);
    assert_eq!(h.transid, 1);
    assert_eq!(h.objectid, 257);
    assert_eq!(h.offset, 8192);
    assert_eq!(h.item_type, 108);
    assert_eq!(h.len, 53);
}

#[test]
fn parse_regular_extent() {
    // scenario: one regular extent at disk_bytenr 0x1000, no compression
    let item = IoctlSearchItem { header: header(5, 0, 53), item: extent(0, 1, 0x1000) };
    let e = item.parse().unwrap().unwrap();
    assert_eq!(e.kind(), ExtentType::Regular);
    assert_eq!(e.comp(), Compression::NoComp);
    assert_eq!(e.key(), 0x1000 >> 12);
    assert_eq!(e.stat().disk, 4096);
    assert_eq!(e.stat().uncomp, 4096);
    assert_eq!(e.stat().refd, 4096);
}

#[test]
fn parse_prealloc_extent() {
    let item = IoctlSearchItem { header: header(5, 0, 53), item: extent(0, 2, 0x3000) };
    let e = item.parse().unwrap().unwrap();
    assert_eq!(e.kind(), ExtentType::Prealloc);
    assert_eq!(e.key(), 3);
}

#[test]
fn parse_inline_extent() {
    // scenario: compressed inline extent, item length 1024 => 1003 disk bytes
    let mut x = extent(1, 0, 0);
    x.ram_bytes = 3000;
    let item = IoctlSearchItem { header: header(5, 0, 1024), item: x };
    let e = item.parse().unwrap().unwrap();
    assert_eq!(e.kind(), ExtentType::Inline);
    assert_eq!(e.comp(), Compression::Zlib);
    assert_eq!(e.key(), 0);
    assert_eq!(e.stat().disk, 1003);
    assert_eq!(e.stat().uncomp, 3000);
    assert_eq!(e.stat().refd, 3000);
}

#[test]
fn parse_hole_is_dropped() {
    // scenario: disk_bytenr 0 marks a hole; the record is silently dropped
    let item = IoctlSearchItem { header: header(5, 0, 53), item: extent(0, 1, 0) };
    assert_eq!(item.parse().unwrap(), None);
}

#[test]
fn parse_misaligned_extent_fails() {
    // scenario: disk_bytenr 0x1001 is not 4 KiB aligned
    let item = IoctlSearchItem { header: header(5, 0, 53), item: extent(0, 1, 0x1001) };
    assert_eq!(item.parse(), Err(ParseError::Misaligned(0x1001)));
}

#[test]
fn parse_bad_length_fails() {
    let item = IoctlSearchItem { header: header(5, 0, 52), item: extent(0, 1, 0x1000) };
    assert_eq!(item.parse(), Err(ParseError::BadLength(52)));
}

#[test]
fn parse_bad_compression_fails() {
    let item = IoctlSearchItem { header: header(5, 0, 53), item: extent(4, 1, 0x1000) };
    assert_eq!(item.parse(), Err(ParseError::BadCompression(4)));
}

#[test]
fn parse_bad_type_fails() {
    let item = IoctlSearchItem { header: header(5, 0, 53), item: extent(0, 3, 0x1000) };
    assert_eq!(item.parse(), Err(ParseError::BadType(3)));
}

#[test]
fn parse_short_inline_fails() {
    let item = IoctlSearchItem { header: header(5, 0, 20), item: extent(0, 0, 0) };
    assert_eq!(item.parse(), Err(ParseError::BadInlineLength(20)));
}

#[test]
fn compression_names() {
    assert_eq!(Compression::NoComp.name(), "none");
    assert_eq!(Compression::Zlib.name(), "zlib");
    assert_eq!(Compression::Lzo.name(), "lzo");
    assert_eq!(Compression::Zstd.name(), "zstd");
    assert_eq!(Compression::from_u8(3), Compression::Zstd);
    assert_eq!(Compression::Zstd.as_usize(), 3);
}

#[test]
fn search_key_new_fills_ranges() {
    let k = IoctlSearchKey::new(0, 42, 42, 0, u64::MAX, 0, u64::MAX, 108, 108);
    assert_eq!(k.min_objectid, 42);
    assert_eq!(k.max_objectid, 42);
    assert_eq!(k.min_type, 108);
    assert_eq!(k.max_type, 108);
    assert_eq!(k.nr_items, u32::MAX);
}

#[test]
fn sv2_args_setup() {
    let k = IoctlSearchKey::new(0, 0, 0, 0, u64::MAX, 0, u64::MAX, 108, 108);
    let mut args = Sv2Args::from_sk(k);
    assert_eq!(args.buf().len(), SV2_BUF_SIZE);
    args.set_search_inode(77);
    assert_eq!(args.key.min_objectid, 77);
    assert_eq!(args.key.max_objectid, 77);
    assert_eq!(args.key.min_offset, 0);
}

fn put_record(buf: &mut [u8], pos: usize, h: &SearchHeader, x: &FileExtent) -> usize {
    buf[pos..pos + 8].copy_from_slice(&h.transid.to_le_bytes());
    buf[pos + 8..pos + 16].copy_from_slice(&h.objectid.to_le_bytes());
    buf[pos + 16..pos + 24].copy_from_slice(&h.offset.to_le_bytes());
    buf[pos + 24..pos + 28].copy_from_slice(&h.item_type.to_le_bytes());
    buf[pos + 28..pos + 32].copy_from_slice(&h.len.to_le_bytes());
    let body = x.to_le_bytes();
    buf[pos + 32..pos + 32 + body.len()].copy_from_slice(&body);
    pos + 32 + h.len as usize
}

#[test]
fn cursor_reads_two_records_and_finishes() {
    let k = IoctlSearchKey::new(0, 5, 5, 0, u64::MAX, 0, u64::MAX, 108, 108);
    let mut args = Sv2Args::from_sk(k);
    let mut iter = Sv2ItemIter::new(&mut args);
    assert!(iter.need_ioctl());

    // pretend the kernel filled the buffer with two records
    let mut buf = vec![0u8; SV2_BUF_SIZE];
    let h1 = header(5, 0, 53);
    let h2 = header(5, 8192, 53);
    let next = put_record(&mut buf, 0, &h1, &extent(0, 1, 0x1000));
    put_record(&mut buf, next, &h2, &extent(0, 1, 0x2000));
    args.set_buf(buf);
    args.key.nr_items = 2;
    iter.on_ioctl_return(&args);
    assert!(!iter.need_ioctl());
    assert!(!iter.finish());

    let r1 = iter.next_record(&mut args).unwrap().unwrap();
    assert_eq!(r1.header, h1);
    assert_eq!(r1.item.disk_bytenr, 0x1000);
    let r2 = iter.next_record(&mut args).unwrap().unwrap();
    assert_eq!(r2.header, h2);
    assert_eq!(r2.item.disk_bytenr, 0x2000);
    assert!(iter.finish());
    assert_eq!(iter.next_record(&mut args).unwrap(), None);
}

#[test]
fn cursor_requests_next_page() {
    // more than 512 items reported: the cursor owes another ioctl and
    // resumes past the last record's offset
    let k = IoctlSearchKey::new(0, 5, 5, 0, u64::MAX, 0, u64::MAX, 108, 108);
    let mut args = Sv2Args::from_sk(k);
    let mut iter = Sv2ItemIter::new(&mut args);
    let mut buf = vec![0u8; SV2_BUF_SIZE];
    put_record(&mut buf, 0, &header(5, 4096, 53), &extent(0, 1, 0x1000));
    args.set_buf(buf);
    args.key.nr_items = 1;
    iter.on_ioctl_return(&args);
    // kernel said one item; 1 <= 512 means this page is the last
    assert!(iter.last);
    let mut args2 = args;
    let _ = iter.next_record(&mut args2).unwrap().unwrap();
    assert!(iter.finish());

    // now pretend a full page: 513 items reported
    let mut iter = Sv2ItemIter::new(&mut args2);
    let mut buf = vec![0u8; SV2_BUF_SIZE];
    put_record(&mut buf, 0, &header(5, 4096, 53), &extent(0, 1, 0x1000));
    args2.set_buf(buf);
    args2.key.nr_items = 513;
    iter.on_ioctl_return(&args2);
    let r = iter.next_record(&mut args2).unwrap().unwrap();
    assert_eq!(r.header.offset, 4096);
    assert!(!iter.need_ioctl());
    // drain the remaining 512 (zero-filled) records; once the page is
    // used up the cursor owes another ioctl and the search key resumes
    // just past the offset of the last record it saw
    for _ in 0..512 {
        let _ = iter.next_record(&mut args2).unwrap();
    }
    assert!(iter.need_ioctl());
    assert_eq!(args2.key.min_offset, 1);
    assert_eq!(args2.key.nr_items, u32::MAX);
}

#[test]
fn cursor_truncated_buffer_fails() {
    // a record whose claimed length runs past the buffer: reading the
    // record after it must fail instead of decoding garbage
    let k = IoctlSearchKey::new(0, 5, 5, 0, u64::MAX, 0, u64::MAX, 108, 108);
    let mut args = Sv2Args::from_sk(k);
    let mut iter = Sv2ItemIter::new(&mut args);
    let mut buf = vec![0u8; SV2_BUF_SIZE];
    put_record(&mut buf, 0, &header(5, 0, SV2_BUF_SIZE as u32), &extent(0, 1, 0x1000));
    args.set_buf(buf);
    args.key.nr_items = 2;
    iter.on_ioctl_return(&args);
    // the first record decodes, and its length pushes the cursor to the
    // end of the buffer
    let r = iter.next_record(&mut args).unwrap().unwrap();
    assert_eq!(r.header.len, SV2_BUF_SIZE as u32);
    // one more record is claimed but cannot fit
    assert_eq!(iter.next_record(&mut args), Err(CursorError::Truncated));
    assert!(iter.finish());
}

#[test]
fn tree_names() {
    assert_eq!(objectid::name(objectid::FS_TREE), Some("FS_TREE"));
    assert_eq!(objectid::name(objectid::EXTENT_CSUM), Some("EXTENT_CSUM"));
    assert_eq!(objectid::name(999), None);
    assert_eq!(item_type::name(item_type::EXTENT_DATA), Some("EXTENT_DATA"));
    assert_eq!(item_type::name(item_type::DIR_ITEM), Some("DIR_ITEM"));
    assert_eq!(item_type::name(2), None);
}
