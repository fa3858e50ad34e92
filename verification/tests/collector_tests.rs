use xsz::btrfs::{Compression, ExtentInfo, ExtentType, Stat};
use xsz::collector::{Collector, CollectorMsg};
use xsz::scale::Scale;

fn regular(key: u64, comp: Compression, disk: u64, uncomp: u64, refd: u64) -> ExtentInfo {
    ExtentInfo::new(1, 0, key, ExtentType::Regular, comp, Stat { disk, uncomp, refd })
}

fn prealloc(key: u64, disk: u64, uncomp: u64, refd: u64) -> ExtentInfo {
    ExtentInfo::new(1, 0, key, ExtentType::Prealloc, Compression::NoComp, Stat {
        disk,
        uncomp,
        refd,
    })
}

fn inline(comp: Compression, disk: u64, uncomp: u64) -> ExtentInfo {
    ExtentInfo::new(1, 0, 0, ExtentType::Inline, comp, Stat { disk, uncomp, refd: uncomp })
}

#[test]
fn single_regular_extent() {
    // scenario: one file, one uncompressed 4 KiB extent
    let mut c = Collector::new();
    c.handle(CollectorMsg::Extent(vec![regular(1, Compression::NoComp, 4096, 4096, 4096)]));
    c.handle(CollectorMsg::NFile(1));
    assert_eq!(c.stat.nfile(), 1);
    assert_eq!(c.stat.nextent, 1);
    assert_eq!(c.stat.nref(), 1);
    assert_eq!(c.stat.ninline, 0);
    let out = c.stat.fmt(Scale::Human);
    let expected = format!(
        "Processed 1 files, 1 regular extents (1 refs), 0 inline.\n{:<10} {:<8} {:<12} {:<12} {:<12}\n{:<10} {:<8} {:<12} {:<12} {:<12}\n{:<10} {:<8} {:<12} {:<12} {:<12}\n",
        "Type", "Perc", "Disk Usage", "Uncompressed", "Referenced",
        "TOTAL", "100%", " 4.0K", " 4.0K", " 4.0K",
        "none", "100%", " 4.0K", " 4.0K", " 4.0K",
    );
    assert_eq!(out, expected);
}

#[test]
fn reflink_dedup() {
    // scenario: two files referencing the same zstd extent; disk and
    // uncompressed bytes count once, referenced bytes twice
    let e = regular(0x2000 >> 12, Compression::Zstd, 8192, 8192, 8192);
    let mut c = Collector::new();
    c.handle(CollectorMsg::Extent(vec![e]));
    c.handle(CollectorMsg::Extent(vec![e]));
    c.handle(CollectorMsg::NFile(2));
    assert_eq!(c.stat.nfile(), 2);
    assert_eq!(c.stat.nextent, 1);
    assert_eq!(c.stat.nref(), 2);
    let zstd = c.stat.stat[3];
    assert_eq!(zstd.disk, 8192);
    assert_eq!(zstd.uncomp, 8192);
    assert_eq!(zstd.refd, 16384);
}

#[test]
fn inline_counts_every_time() {
    // scenario: compressed inline extents always count all three fields
    let mut c = Collector::new();
    c.handle(CollectorMsg::Extent(vec![inline(Compression::Zlib, 1003, 3000)]));
    assert_eq!(c.stat.ninline, 1);
    assert_eq!(c.stat.nref(), 0);
    assert_eq!(c.stat.nextent, 0);
    let zlib = c.stat.stat[1];
    assert_eq!(zlib.disk, 1003);
    assert_eq!(zlib.uncomp, 3000);
    assert_eq!(zlib.refd, 3000);
}

#[test]
fn prealloc_separate_bucket() {
    let mut c = Collector::new();
    c.handle(CollectorMsg::Extent(vec![
        prealloc(9, 4096, 4096, 4096),
        prealloc(9, 4096, 4096, 2048),
    ]));
    assert_eq!(c.stat.nextent, 1);
    assert_eq!(c.stat.nref(), 2);
    assert_eq!(c.stat.prealloc.disk, 4096);
    assert_eq!(c.stat.prealloc.uncomp, 4096);
    assert_eq!(c.stat.prealloc.refd, 6144);
    // preallocated space does not enter the per-class table
    assert_eq!(c.stat.stat[0].disk, 0);
}

#[test]
fn dedup_across_batches_and_kinds() {
    // the same key through different files and batches counts once
    let e1 = regular(42, Compression::Lzo, 4096, 8192, 8192);
    let e2 = regular(42, Compression::Lzo, 4096, 8192, 4096);
    let e3 = regular(43, Compression::Lzo, 4096, 4096, 4096);
    let mut c = Collector::new();
    c.handle(CollectorMsg::Extent(vec![e1, e2]));
    c.handle(CollectorMsg::Extent(vec![e3]));
    assert_eq!(c.stat.nextent, 2);
    assert_eq!(c.stat.nref(), 3);
    let lzo = c.stat.stat[2];
    assert_eq!(lzo.disk, 8192);
    assert_eq!(lzo.uncomp, 12288);
    assert_eq!(lzo.refd, 16384);
}

#[test]
fn aggregate_is_order_independent() {
    // commutativity on concrete values: any order, same totals
    let a = regular(1, Compression::NoComp, 4096, 4096, 4096);
    let b = regular(2, Compression::Zstd, 8192, 16384, 16384);
    let c_ = regular(1, Compression::NoComp, 4096, 4096, 1024);
    let d = inline(Compression::Zlib, 100, 300);
    let e = prealloc(7, 4096, 4096, 4096);
    let orders: [[usize; 5]; 4] = [
        [0, 1, 2, 3, 4],
        [4, 3, 2, 1, 0],
        [2, 0, 4, 1, 3],
        [3, 1, 0, 4, 2],
    ];
    let pool = [a, b, c_, d, e];
    let mut results = Vec::new();
    for ord in orders.iter() {
        let mut col = Collector::new();
        for &i in ord.iter() {
            col.handle(CollectorMsg::Extent(vec![pool[i]]));
        }
        results.push(col.stat);
    }
    for r in &results[1..] {
        assert_eq!(*r, results[0]);
    }
}

#[test]
fn nfile_sums_messages() {
    let mut c = Collector::new();
    c.handle(CollectorMsg::NFile(3));
    c.handle(CollectorMsg::NFile(0));
    c.handle(CollectorMsg::NFile(39));
    assert_eq!(c.stat.nfile(), 42);
}

#[test]
fn empty_diagnostic_no_files() {
    // scenario: a crawl that saw nothing prints a note, no table
    let c = Collector::new();
    assert_eq!(c.stat.empty_diagnostic(), Some("No Files."));
    assert_eq!(c.stat.fmt(Scale::Human), "");
    assert_eq!(c.stat.fmt(Scale::Bytes), "");
}

#[test]
fn empty_diagnostic_empty_files() {
    // files seen, but no uncompressed bytes at all
    let mut c = Collector::new();
    c.handle(CollectorMsg::NFile(5));
    assert_eq!(c.stat.empty_diagnostic(), Some("All empty or still-delalloced files."));
    assert_eq!(c.stat.fmt(Scale::Bytes), "");
}

#[test]
fn diagnostic_absent_when_data_present() {
    let mut c = Collector::new();
    c.handle(CollectorMsg::Extent(vec![regular(1, Compression::NoComp, 4096, 4096, 4096)]));
    assert_eq!(c.stat.empty_diagnostic(), None);
}

#[test]
fn interleaved_messages_consistent_counts() {
    // file counts and extent batches interleave arbitrarily; the counts
    // depend only on what was delivered
    let mut c = Collector::new();
    c.handle(CollectorMsg::NFile(1));
    c.handle(CollectorMsg::Extent(vec![
        regular(1, Compression::NoComp, 4096, 4096, 4096),
        regular(1, Compression::NoComp, 4096, 4096, 4096),
    ]));
    c.handle(CollectorMsg::NFile(2));
    c.handle(CollectorMsg::Extent(vec![
        inline(Compression::NoComp, 10, 20),
        regular(2, Compression::NoComp, 4096, 4096, 4096),
    ]));
    assert_eq!(c.stat.nfile(), 3);
    assert_eq!(c.stat.nref(), 3);
    assert_eq!(c.stat.nextent, 2);
    assert_eq!(c.stat.ninline, 1);
}

#[test]
fn fmt_bytes_scale_columns() {
    let mut c = Collector::new();
    c.handle(CollectorMsg::Extent(vec![
        regular(1, Compression::NoComp, 4096, 4096, 4096),
        inline(Compression::Zlib, 1003, 3000),
    ]));
    c.handle(CollectorMsg::NFile(2));
    let out = c.stat.fmt(Scale::Bytes);
    let expected = format!(
        "Processed 2 files, 1 regular extents (1 refs), 1 inline.\n{:<10} {:<8} {:<12} {:<12} {:<12}\n{:<10} {:<8} {:<12} {:<12} {:<12}\n{:<10} {:<8} {:<12} {:<12} {:<12}\n{:<10} {:<8} {:<12} {:<12} {:<12}\n",
        "Type", "Perc", "Disk Usage", "Uncompressed", "Referenced",
        "TOTAL", " 71%", "5099", "7096", "7096",
        "none", "100%", "4096", "4096", "4096",
        "zlib", " 33%", "1003", "3000", "3000",
    );
    assert_eq!(out, expected);
}
