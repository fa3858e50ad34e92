use xsz::taskpak::TaskPak;
use xsz::walkdir::{
    classify_entry, crawl_count, split_overflow, DirNode, EntryAction, EntryKind, JobChunk,
    JobMgr, WalkDir, WalkDirMsg, MAX_LOCAL_LEN,
};

#[test]
fn classify_rules() {
    // same device: descend
    assert_eq!(classify_entry(1, 1, EntryKind::Dir, false), EntryAction::Descend);
    assert_eq!(classify_entry(1, 1, EntryKind::Dir, true), EntryAction::Descend);
    // foreign device: new chunk, unless one-filesystem is on
    assert_eq!(classify_entry(1, 2, EntryKind::Dir, false), EntryAction::NewChunk);
    assert_eq!(classify_entry(1, 2, EntryKind::Dir, true), EntryAction::Skip);
    // files are emitted, everything else skipped
    assert_eq!(classify_entry(1, 1, EntryKind::File, true), EntryAction::EmitFile);
    assert_eq!(classify_entry(1, 2, EntryKind::File, true), EntryAction::EmitFile);
    assert_eq!(classify_entry(1, 1, EntryKind::Other, false), EntryAction::Skip);
}

#[test]
fn overflow_split_keeps_tail() {
    let mut dirs: Vec<String> = (0..300).map(|i| format!("d{}", i)).collect();
    let pushed = split_overflow(&mut dirs);
    // 300 entries: shed the oldest 172, keep the newest 128
    assert_eq!(pushed.len(), 300 - MAX_LOCAL_LEN / 2);
    assert_eq!(dirs.len(), MAX_LOCAL_LEN / 2);
    assert_eq!(pushed[0], "d0");
    assert_eq!(pushed[171], "d171");
    assert_eq!(dirs[0], "d172");
    assert_eq!(dirs[127], "d299");
}

#[test]
fn overflow_split_under_limit_is_noop() {
    let mut dirs: Vec<String> = (0..MAX_LOCAL_LEN).map(|i| format!("d{}", i)).collect();
    let pushed = split_overflow(&mut dirs);
    assert!(pushed.is_empty());
    assert_eq!(dirs.len(), MAX_LOCAL_LEN);
}

#[test]
fn jobmgr_buckets_by_device() {
    let mut m = JobMgr::new();
    assert!(m.is_empty());
    m.push(JobChunk { dev: 1, dirs: vec!["a".to_string(), "b".to_string()] });
    m.push(JobChunk { dev: 2, dirs: vec!["c".to_string()] });
    m.push(JobChunk { dev: 1, dirs: vec!["d".to_string()] });
    assert!(!m.is_empty());
    // drain everything; each chunk must be single-device and in bucket order
    let mut from_dev1: Vec<String> = Vec::new();
    let mut from_dev2: Vec<String> = Vec::new();
    while let Some(c) = m.get_n_jobs(10) {
        match c.dev {
            1 => from_dev1.extend(c.dirs),
            2 => from_dev2.extend(c.dirs),
            _ => panic!("unknown device"),
        }
    }
    assert!(m.is_empty());
    assert_eq!(from_dev1, vec!["a".to_string(), "b".to_string(), "d".to_string()]);
    assert_eq!(from_dev2, vec!["c".to_string()]);
}

#[test]
fn jobmgr_partial_bucket() {
    let mut m = JobMgr::new();
    m.push(JobChunk {
        dev: 1,
        dirs: (0..5).map(|i| format!("d{}", i)).collect(),
    });
    let c = m.get_n_jobs(2).unwrap();
    assert_eq!(c.dev, 1);
    assert_eq!(c.dirs, vec!["d0".to_string(), "d1".to_string()]);
    let c = m.get_n_jobs(10).unwrap();
    assert_eq!(c.dirs, vec!["d2".to_string(), "d3".to_string(), "d4".to_string()]);
    assert!(m.get_n_jobs(1).is_none());
}

#[test]
fn director_assigns_and_finishes() {
    let mut d = WalkDir::new(2);
    // a walker hands back work; the balance pass deals it out again
    let (asg, done) = d.handle(
        WalkDirMsg::PushJobs(JobChunk { dev: 1, dirs: vec!["root".to_string()] }),
        false,
    );
    assert!(!done);
    assert_eq!(asg.len(), 1);
    let (id0, msg) = &asg[0];
    assert_eq!(msg.chunk.dev, 1);
    assert_eq!(msg.chunk.dirs, vec!["root".to_string()]);
    // that walker drains its stack and asks again; nothing is left, so no
    // assignment — and once every walker is idle the crawl is done
    let (asg, done) = d.handle(WalkDirMsg::RequireJobs(*id0), false);
    assert!(asg.is_empty());
    assert!(done);
}

#[test]
fn director_deals_out_exactly_what_was_pushed() {
    // 300 directories, two idle walkers: each gets half the high-water
    // mark from the front of the bucket, the remainder stays stored and
    // goes to the next walker that comes back idle
    let mut d = WalkDir::new(2);
    let dirs: Vec<String> = (0..300).map(|i| format!("d{}", i)).collect();
    let (asg, done) =
        d.handle(WalkDirMsg::PushJobs(JobChunk { dev: 1, dirs: dirs.clone() }), false);
    assert!(!done);
    assert_eq!(asg.len(), 2);
    let first_id = asg[0].0;
    let mut dealt: Vec<String> = Vec::new();
    for (_, m) in &asg {
        assert_eq!(m.chunk.dev, 1);
        assert_eq!(m.chunk.dirs.len(), MAX_LOCAL_LEN / 2);
        dealt.extend(m.chunk.dirs.iter().cloned());
    }
    assert_eq!(dealt, dirs[..MAX_LOCAL_LEN].to_vec());
    // the first walker drains and asks again: it gets the remaining 44
    let (asg, done) = d.handle(WalkDirMsg::RequireJobs(first_id), false);
    assert!(!done);
    assert_eq!(asg.len(), 1);
    assert_eq!(asg[0].1.chunk.dirs, dirs[MAX_LOCAL_LEN..].to_vec());
}

#[test]
fn director_error_flag_clears_state() {
    // after the error flag is set, the director drops all queued work and
    // assigns nothing, so the crawl winds down
    let mut d = WalkDir::new(3);
    let (asg, _) = d.handle(
        WalkDirMsg::PushJobs(JobChunk {
            dev: 1,
            dirs: (0..1000).map(|i| format!("d{}", i)).collect(),
        }),
        true,
    );
    assert!(asg.is_empty());
    let (asg, done) = d.handle(WalkDirMsg::RequireJobs(0), false);
    assert!(asg.is_empty());
    assert!(!done);
}

fn leaf(dev: u64, nfiles: u64) -> DirNode {
    DirNode { dev, nfiles, subdirs: Vec::new() }
}

#[test]
fn crawl_counts_all_files_single_device() {
    // walk completeness: every regular file of a one-device tree is seen
    let tree = DirNode {
        dev: 1,
        nfiles: 2,
        subdirs: vec![
            leaf(1, 3),
            DirNode { dev: 1, nfiles: 0, subdirs: vec![leaf(1, 5), leaf(1, 1)] },
        ],
    };
    assert_eq!(crawl_count(&tree, false), 11);
    assert_eq!(crawl_count(&tree, true), 11);
}

#[test]
fn crawl_crosses_devices_when_allowed() {
    let tree = DirNode {
        dev: 1,
        nfiles: 1,
        subdirs: vec![
            leaf(1, 2),
            DirNode { dev: 2, nfiles: 4, subdirs: vec![leaf(2, 8)] },
        ],
    };
    // without the policy the foreign subtree is crawled as its own chunk
    assert_eq!(crawl_count(&tree, false), 15);
}

#[test]
fn crawl_one_filesystem_containment() {
    // with the policy on, no file behind a device boundary is counted —
    // not even one that returns to the root's device deeper down
    let tree = DirNode {
        dev: 1,
        nfiles: 1,
        subdirs: vec![
            leaf(1, 2),
            DirNode {
                dev: 2,
                nfiles: 4,
                subdirs: vec![leaf(1, 100)],
            },
        ],
    };
    assert_eq!(crawl_count(&tree, true), 3);
}

#[test]
fn taskpak_batches_at_capacity() {
    let mut pak: TaskPak<u32> = TaskPak::new(3);
    assert!(pak.is_empty());
    assert_eq!(pak.push(1), None);
    assert_eq!(pak.push(2), None);
    let batch = pak.push(3).unwrap();
    assert_eq!(batch, vec![1, 2, 3]);
    assert!(pak.is_empty());
    assert_eq!(pak.push(4), None);
    let residue = pak.take_residue().unwrap();
    assert_eq!(residue, vec![4]);
    assert!(pak.take_residue().is_none());
}
