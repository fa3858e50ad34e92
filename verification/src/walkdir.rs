//! The crawl's decision logic: how a directory entry is classified, how a
//! walker sheds excess work, how the director stores and deals out
//! directories by device, and the laws of crawl completeness and
//! one-filesystem containment over a model directory tree.
//!
//! Opening directories, reading entries and sending messages are the
//! shell's business; every rule that decides what happens next lives here.

use vstd::prelude::*;
use std::collections::HashMap;

verus! {

broadcast use vstd::std_specs::hash::group_hash_axioms;

/// How many directories a walker keeps on its own stack before it sheds
/// the oldest back to the director: a page of boxed paths, 4096 bytes
/// over 16 per entry.
pub const MAX_LOCAL_LEN: usize = 256;

/// What kind of directory entry the walker met.
#[derive(Debug, Clone, Copy, PartialEq, Eq, Structural)]
pub enum EntryKind {
    Dir,
    File,
    Other,
}

/// What the walker does with one directory entry.
#[derive(Debug, Clone, Copy, PartialEq, Eq, Structural)]
pub enum EntryAction {
    /// Push the directory onto the local stack: same filesystem.
    Descend,
    /// Start a chunk for another filesystem, to hand to the director.
    NewChunk,
    /// Send the regular file to the worker pool.
    EmitFile,
    /// Ignore the entry.
    Skip,
}

/// The walker's rule for one entry: descend into same-device directories;
/// a directory on another device starts a new chunk unless the
/// one-filesystem policy is on, in which case it is skipped; regular
/// files are emitted; anything else — symbolic links included — is
/// skipped.
pub fn classify_entry(chunk_dev: u64, entry_dev: u64, kind: EntryKind, one_fs: bool) -> (r:
    EntryAction)
    ensures
        kind == EntryKind::Dir && entry_dev == chunk_dev ==> r == EntryAction::Descend,
        kind == EntryKind::Dir && entry_dev != chunk_dev && !one_fs ==> r == EntryAction::NewChunk,
        kind == EntryKind::Dir && entry_dev != chunk_dev && one_fs ==> r == EntryAction::Skip,
        kind == EntryKind::File ==> r == EntryAction::EmitFile,
        kind == EntryKind::Other ==> r == EntryAction::Skip,
{
    match kind {
        EntryKind::Dir => {
            if entry_dev == chunk_dev {
                EntryAction::Descend
            } else if !one_fs {
                EntryAction::NewChunk
            } else {
                EntryAction::Skip
            }
        },
        EntryKind::File => EntryAction::EmitFile,
        EntryKind::Other => EntryAction::Skip,
    }
}

/// When the local stack has grown past `MAX_LOCAL_LEN`, hand the oldest
/// entries back so that half the high-water mark remains; otherwise keep
/// everything.  Nothing is lost: what is handed back followed by what is
/// kept is the old stack.
pub fn split_overflow(dirs: &mut Vec<String>) -> (pushed: Vec<String>)
    ensures
        old(dirs)@.len() > MAX_LOCAL_LEN ==> {
            let r = old(dirs)@.len() - MAX_LOCAL_LEN / 2;
            &&& pushed@ == old(dirs)@.take(r as int)
            &&& final(dirs)@ == old(dirs)@.skip(r as int)
        },
        old(dirs)@.len() <= MAX_LOCAL_LEN ==> pushed@.len() == 0 && final(dirs)@ == old(dirs)@,
{
    if dirs.len() > MAX_LOCAL_LEN {
        let r = dirs.len() - MAX_LOCAL_LEN / 2;
        let mut back = dirs.split_off(r);
        std::mem::swap(dirs, &mut back);
        back
    } else {
        Vec::new()
    }
}

/// A batch of directories to walk, all on one filesystem.
pub struct JobChunk {
    /// The device id of the filesystem the directories live on.
    pub dev: u64,
    /// The directories, as paths.
    pub dirs: Vec<String>,
}

/// The director's store: unexplored directories, partitioned by the
/// device id of their filesystem.  Partitioning makes the
/// one-filesystem policy cheap: crossing devices never enters the same
/// bucket, so every chunk dealt out is single-device.
pub struct JobMgr {
    pub jobs: HashMap<u64, Vec<String>>,
    pub devs: Vec<u64>,
}

impl JobMgr {
    /// The bucket list and the map agree: the listed devices are exactly
    /// the map's keys, each listed once, and no bucket is empty.
    pub open spec fn wf(&self) -> bool {
        &&& forall|i: int, j: int|
            0 <= i < j < self.devs@.len() ==> self.devs@[i] != self.devs@[j]
        &&& forall|d: u64| self.jobs@.dom().contains(d) <==> self.devs@.contains(d)
        &&& forall|d: u64|
            self.jobs@.dom().contains(d) ==> (#[trigger] self.jobs@[d])@.len() > 0
    }

    /// The store as a map from device to its directories.
    pub open spec fn model(&self) -> Map<u64, Seq<String>> {
        Map::new(
            |d: u64| self.jobs@.dom().contains(d),
            |d: u64| self.jobs@[d]@,
        )
    }

    /// An empty store.
    pub fn new() -> (r: Self)
        ensures
            r.wf(),
            r.model() == Map::<u64, Seq<String>>::empty(),
    {
        let r = JobMgr { jobs: HashMap::new(), devs: Vec::new() };
        proof {
            assert(r.model() =~= Map::<u64, Seq<String>>::empty());
        }
        r
    }

    /// Whether the store holds nothing.
    pub fn is_empty(&self) -> (r: bool)
        requires
            self.wf(),
        ensures
            r == (self.model() =~= Map::<u64, Seq<String>>::empty()),
            r == (self.model().dom() =~= Set::<u64>::empty()),
    {
        let r = self.devs.len() == 0;
        proof {
            if r {
                assert forall|d: u64| !self.jobs@.dom().contains(d) by {
                    assert(!self.devs@.contains(d));
                }
                assert(self.model() =~= Map::<u64, Seq<String>>::empty());
            } else {
                let d = self.devs@[0];
                assert(self.devs@.contains(d));
                assert(self.model().dom().contains(d));
            }
        }
        r
    }

    /// Drop everything, as the director does once the error flag is set.
    pub fn clear(&mut self)
        ensures
            final(self).wf(),
            final(self).model() == Map::<u64, Seq<String>>::empty(),
    {
        self.jobs.clear();
        self.devs.clear();
        proof {
            assert(self.model() =~= Map::<u64, Seq<String>>::empty());
        }
    }

    /// Absorb a chunk: its directories join the bucket of its device,
    /// after any already there; other buckets are untouched.
    pub fn push(&mut self, chunk: JobChunk)
        requires
            old(self).wf(),
            chunk.dirs@.len() > 0,
        ensures
            final(self).wf(),
            final(self).model().dom() == old(self).model().dom().insert(chunk.dev),
            final(self).model()[chunk.dev] == if old(self).model().dom().contains(chunk.dev) {
                old(self).model()[chunk.dev] + chunk.dirs@
            } else {
                chunk.dirs@
            },
            forall|d: u64|
                d != chunk.dev && old(self).model().dom().contains(d)
                    ==> final(self).model()[d] == old(self).model()[d],
    {
        let JobChunk { dev, dirs } = chunk;
        let mut dirs = dirs;
        match self.jobs.remove(&dev) {
            Some(mut bucket) => {
                bucket.append(&mut dirs);
                self.jobs.insert(dev, bucket);
                proof {
                    assert(old(self).jobs@.dom().contains(dev));
                    assert(old(self).devs@.contains(dev));
                    assert(self.model().dom() =~= old(self).model().dom().insert(dev));
                }
            },
            None => {
                self.jobs.insert(dev, dirs);
                self.devs.push(dev);
                proof {
                    assert(!old(self).jobs@.dom().contains(dev));
                    assert(!old(self).devs@.contains(dev));
                    assert forall|d: u64| self.jobs@.dom().contains(d) <==> self.devs@.contains(
                        d,
                    ) by {
                        if d == dev {
                            assert(self.devs@[self.devs@.len() - 1] == dev);
                        } else {
                            if old(self).devs@.contains(d) {
                                let i = choose|i: int|
                                    0 <= i < old(self).devs@.len() && old(self).devs@[i] == d;
                                assert(self.devs@[i] == d);
                            }
                            if self.devs@.contains(d) {
                                let i = choose|i: int|
                                    0 <= i < self.devs@.len() && self.devs@[i] == d;
                                assert(i < old(self).devs@.len());
                                assert(old(self).devs@[i] == d);
                            }
                        }
                    }
                    assert forall|i: int, j: int|
                        0 <= i < j < self.devs@.len() implies self.devs@[i] != self.devs@[j] by {
                        if j == self.devs@.len() - 1 {
                            assert(self.devs@[i] == old(self).devs@[i]);
                            assert(old(self).devs@.contains(old(self).devs@[i]));
                        }
                    }
                    assert(self.model().dom() =~= old(self).model().dom().insert(dev));
                }
            },
        }
    }
}

impl JobMgr {
    /// Deal out up to `n` directories from one bucket, the first entries
    /// of that bucket in order.  A bucket that fits entirely is removed
    /// whole; a larger one keeps its remainder.  Which device is picked
    /// is not specified — any non-empty bucket serves.  Returns nothing
    /// exactly when the store is empty.
    pub fn get_n_jobs(&mut self, n: usize) -> (r: Option<JobChunk>)
        requires
            old(self).wf(),
            n >= 1,
        ensures
            final(self).wf(),
            r is None <==> old(self).model().dom() =~= Set::<u64>::empty(),
            r is None ==> *final(self) == *old(self),
            r matches Some(c) ==> {
                let bucket = old(self).model()[c.dev];
                &&& old(self).model().dom().contains(c.dev)
                &&& c.dirs@.len() > 0
                &&& c.dirs@.len() <= n
                &&& if bucket.len() <= n {
                    &&& c.dirs@ == bucket
                    &&& final(self).model() =~= old(self).model().remove(c.dev)
                } else {
                    &&& c.dirs@ == bucket.take(n as int)
                    &&& final(self).model() =~= old(self).model().insert(
                        c.dev,
                        bucket.skip(n as int),
                    )
                }
            },
    {
        if self.devs.len() == 0 {
            proof {
                assert forall|d: u64| !self.jobs@.dom().contains(d) by {
                    assert(!self.devs@.contains(d));
                }
                assert(self.model().dom() =~= Set::<u64>::empty());
            }
            return None;
        }
        let dev = self.devs[self.devs.len() - 1];
        proof {
            assert(self.devs@.contains(dev));
            assert(self.jobs@.dom().contains(dev));
            assert(self.model().dom().contains(dev));
        }
        let bucket = self.jobs.remove(&dev);
        match bucket {
            Some(mut b) => {
                if b.len() <= n {
                    self.devs.pop();
                    proof {
                        assert forall|d: u64|
                            self.jobs@.dom().contains(d) <==> self.devs@.contains(d) by {
                            if d == dev {
                                if self.devs@.contains(d) {
                                    let i = choose|i: int|
                                        0 <= i < self.devs@.len() && self.devs@[i] == d;
                                    assert(old(self).devs@[i] == d);
                                    assert(old(self).devs@[old(self).devs@.len() - 1] == d);
                                }
                            } else {
                                if old(self).devs@.contains(d) {
                                    let i = choose|i: int|
                                        0 <= i < old(self).devs@.len() && old(self).devs@[i]
                                            == d;
                                    assert(i != old(self).devs@.len() - 1);
                                    assert(self.devs@[i] == d);
                                }
                                if self.devs@.contains(d) {
                                    let i = choose|i: int|
                                        0 <= i < self.devs@.len() && self.devs@[i] == d;
                                    assert(old(self).devs@[i] == d);
                                }
                            }
                        }
                        assert(self.model() =~= old(self).model().remove(dev));
                    }
                    Some(JobChunk { dev, dirs: b })
                } else {
                    let rest = b.split_off(n);
                    self.jobs.insert(dev, rest);
                    proof {
                        assert forall|d: u64|
                            self.jobs@.dom().contains(d) <==> self.devs@.contains(d) by {
                            if d != dev {
                                assert(self.jobs@.dom().contains(d) == old(self).jobs@.dom().contains(d));
                            }
                        }
                        assert(self.model() =~= old(self).model().insert(
                            dev,
                            old(self).model()[dev].skip(n as int),
                        ));
                    }
                    Some(JobChunk { dev, dirs: b })
                }
            },
            None => {
                proof {
                    assert(false);
                }
                None
            },
        }
    }
}

/// The directories that a list of assignments deals out for device `d`,
/// in deal order.
pub open spec fn spec_dealt(asg: Seq<(u8, WalkerMsg)>, d: u64) -> Seq<String>
    decreases asg.len(),
{
    if asg.len() == 0 {
        Seq::empty()
    } else if asg.last().1.chunk.dev == d {
        spec_dealt(asg.drop_last(), d) + asg.last().1.chunk.dirs@
    } else {
        spec_dealt(asg.drop_last(), d)
    }
}

/// Device `d`'s bucket in the store model, or nothing when the store
/// holds no such bucket.
pub open spec fn spec_remaining(m: Map<u64, Seq<String>>, d: u64) -> Seq<String> {
    if m.dom().contains(d) {
        m[d]
    } else {
        Seq::empty()
    }
}

/// The store model after one chunk is pushed: the chunk's directories
/// join the end of its device's bucket.
pub open spec fn spec_push_model(m: Map<u64, Seq<String>>, dev: u64, dirs: Seq<String>) -> Map<
    u64,
    Seq<String>,
> {
    if m.dom().contains(dev) {
        m.insert(dev, m[dev] + dirs)
    } else {
        m.insert(dev, dirs)
    }
}

/// A message to the director: a walker returning excess directories, or a
/// walker announcing that its local stack is drained.
pub enum WalkDirMsg {
    PushJobs(JobChunk),
    RequireJobs(u8),
}

/// An assignment to one walker: the chunk it is to crawl.
pub struct WalkerMsg {
    pub chunk: JobChunk,
}

/// The director's state: how many walkers exist, which of them are idle,
/// and the store of unexplored directories.  Sending assignments over
/// channels is the shell's business; `handle` computes them.
pub struct WalkDir {
    pub nwalker: u8,
    pub pending_walkers: Vec<u8>,
    pub global_joblist: JobMgr,
}

impl WalkDir {
    /// Idle walkers are listed at most once, each a real walker id.
    pub open spec fn wf(&self) -> bool {
        &&& self.global_joblist.wf()
        &&& forall|i: int, j: int|
            0 <= i < j < self.pending_walkers@.len() ==> self.pending_walkers@[i]
                != self.pending_walkers@[j]
        &&& forall|i: int|
            0 <= i < self.pending_walkers@.len() ==> self.pending_walkers@[i] < self.nwalker
    }

    /// Whether the director has let go of all work and walkers.
    pub open spec fn cleared(&self) -> bool {
        &&& self.pending_walkers@.len() == 0
        &&& self.global_joblist.model().dom() =~= Set::<u64>::empty()
    }

    /// A fresh director over `nwalker` walkers, all idle.
    pub fn new(nwalker: u8) -> (r: Self)
        requires
            nwalker >= 1,
        ensures
            r.wf(),
            r.nwalker == nwalker,
            r.pending_walkers@.len() == nwalker as int,
            r.global_joblist.model().dom() =~= Set::<u64>::empty(),
    {
        let mut pending: Vec<u8> = Vec::new();
        let mut i: u8 = 0;
        while i < nwalker
            invariant
                0 <= i <= nwalker,
                pending@.len() == i as int,
                forall|k: int| 0 <= k < i as int ==> pending@[k] == k,
            decreases nwalker - i,
        {
            pending.push(i);
            i = i + 1;
        }
        WalkDir { nwalker, pending_walkers: pending, global_joblist: JobMgr::new() }
    }

    /// The balance pass: while an idle walker and work both exist, pull a
    /// chunk of at most half the local high-water mark from one bucket
    /// and pair it with an idle walker, most recently idled first.  When
    /// the store is empty and every walker is idle, the crawl is done and
    /// the director lets everything go.  Afterwards no idle walker and
    /// non-empty store coexist, and no directory is lost or invented:
    /// per device, the dealt chunks followed by what remains stored are
    /// exactly what was stored before, in order.
    pub fn job_balance(&mut self) -> (r: (Vec<(u8, WalkerMsg)>, bool))
        requires
            old(self).wf(),
        ensures
            final(self).wf(),
            final(self).nwalker == old(self).nwalker,
            ({
                let (asg, done) = r;
                &&& done == (old(self).global_joblist.model().dom() =~= Set::<u64>::empty()
                    && old(self).pending_walkers@.len() == old(self).nwalker as int)
                &&& done ==> final(self).cleared() && asg@.len() == 0
                &&& !done ==> (final(self).global_joblist.model().dom() =~= Set::<u64>::empty()
                    || final(self).pending_walkers@.len() == 0)
                &&& !done ==> asg@.len() + final(self).pending_walkers@.len() == old(self).pending_walkers@.len()
                &&& !done ==> final(self).pending_walkers@ == old(self).pending_walkers@.take(
                    final(self).pending_walkers@.len() as int,
                )
                &&& forall|k: int|
                    0 <= k < asg@.len() ==> (#[trigger] asg@[k]).0 == old(self).pending_walkers@[old(self).pending_walkers@.len() - 1 - k]
                &&& forall|k: int|
                    0 <= k < asg@.len() ==> (#[trigger] asg@[k]).1.chunk.dirs@.len() > 0
                        && asg@[k].1.chunk.dirs@.len() <= MAX_LOCAL_LEN / 2
                &&& forall|k: int|
                    0 <= k < asg@.len() ==> old(self).global_joblist.model().dom().contains(
                        (#[trigger] asg@[k]).1.chunk.dev,
                    )
                &&& forall|d: u64|
                    old(self).global_joblist.model().dom().contains(d) ==> old(self).global_joblist.model()[d] == #[trigger] spec_dealt(asg@, d)
                        + spec_remaining(final(self).global_joblist.model(), d)
                &&& final(self).global_joblist.model().dom().subset_of(
                    old(self).global_joblist.model().dom(),
                )
                &&& forall|d: u64|
                    !old(self).global_joblist.model().dom().contains(d) ==> #[trigger] spec_dealt(
                        asg@,
                        d,
                    ) == Seq::<String>::empty()
            }),
    {
        let mut asg: Vec<(u8, WalkerMsg)> = Vec::new();
        if self.global_joblist.is_empty() {
            proof {
                assert forall|d: u64| #[trigger] spec_dealt(asg@, d) == Seq::<String>::empty() by {
                    assert(spec_dealt(asg@, d) =~= Seq::<String>::empty());
                }
            }
            if self.pending_walkers.len() == self.nwalker as usize {
                self.pending_walkers = Vec::new();
                self.global_joblist.clear();
                proof {
                    assert(self.pending_walkers@ =~= old(self).pending_walkers@.take(0));
                }
                return (asg, true);
            }
            proof {
                assert(self.pending_walkers@ =~= old(self).pending_walkers@.take(
                    self.pending_walkers@.len() as int,
                ));
            }
            return (asg, false);
        }
        proof {
            assert forall|d: u64|
                old(self).global_joblist.model().dom().contains(d) implies old(self).global_joblist.model()[d] == #[trigger] spec_dealt(asg@, d) + spec_remaining(
                self.global_joblist.model(),
                d,
            ) by {
                assert(spec_dealt(asg@, d) =~= Seq::<String>::empty());
                assert(spec_dealt(asg@, d) + spec_remaining(self.global_joblist.model(), d)
                    =~= old(self).global_joblist.model()[d]);
            }
            assert forall|d: u64|
                !old(self).global_joblist.model().dom().contains(d) implies #[trigger] spec_dealt(
                asg@,
                d,
            ) == Seq::<String>::empty() by {
                assert(spec_dealt(asg@, d) =~= Seq::<String>::empty());
            }
        }
        while self.pending_walkers.len() > 0 && !self.global_joblist.is_empty()
            invariant
                self.wf(),
                self.nwalker == old(self).nwalker,
                asg@.len() + self.pending_walkers@.len() == old(self).pending_walkers@.len(),
                self.pending_walkers@ == old(self).pending_walkers@.take(
                    self.pending_walkers@.len() as int,
                ),
                forall|k: int|
                    0 <= k < asg@.len() ==> (#[trigger] asg@[k]).0 == old(self).pending_walkers@[old(self).pending_walkers@.len() - 1 - k],
                forall|k: int|
                    0 <= k < asg@.len() ==> (#[trigger] asg@[k]).1.chunk.dirs@.len() > 0
                        && asg@[k].1.chunk.dirs@.len() <= MAX_LOCAL_LEN / 2,
                forall|k: int|
                    0 <= k < asg@.len() ==> old(self).global_joblist.model().dom().contains(
                        (#[trigger] asg@[k]).1.chunk.dev,
                    ),
                forall|d: u64|
                    old(self).global_joblist.model().dom().contains(d) ==> old(self).global_joblist.model()[d] == #[trigger] spec_dealt(asg@, d)
                        + spec_remaining(self.global_joblist.model(), d),
                self.global_joblist.model().dom().subset_of(
                    old(self).global_joblist.model().dom(),
                ),
                forall|d: u64|
                    !old(self).global_joblist.model().dom().contains(d) ==> #[trigger] spec_dealt(
                        asg@,
                        d,
                    ) == Seq::<String>::empty(),
            decreases self.pending_walkers@.len(),
        {
            let ghost m_pre = self.global_joblist.model();
            let ghost asg_pre = asg@;
            let chunk = self.global_joblist.get_n_jobs(MAX_LOCAL_LEN / 2);
            match chunk {
                Some(c) => {
                    let ghost cdev = c.dev;
                    let ghost cdirs = c.dirs@;
                    let id = self.pending_walkers.pop().unwrap();
                    proof {
                        assert(self.pending_walkers@ =~= old(self).pending_walkers@.take(
                            self.pending_walkers@.len() as int,
                        ));
                    }
                    asg.push((id, WalkerMsg { chunk: c }));
                    proof {
                        let m_now = self.global_joblist.model();
                        assert(asg@.drop_last() =~= asg_pre);
                        assert(asg@.last().1.chunk.dev == cdev);
                        assert(asg@.last().1.chunk.dirs@ == cdirs);
                        assert forall|d: u64|
                            old(self).global_joblist.model().dom().contains(d) implies old(self).global_joblist.model()[d] == #[trigger] spec_dealt(asg@, d)
                            + spec_remaining(m_now, d) by {
                            if d == cdev {
                                let pre_bucket = m_pre[cdev];
                                if pre_bucket.len() <= MAX_LOCAL_LEN / 2 {
                                    assert(spec_dealt(asg@, d) == spec_dealt(asg_pre, d)
                                        + cdirs);
                                    assert(!m_now.dom().contains(cdev));
                                    assert((spec_dealt(asg_pre, d) + pre_bucket)
                                        + Seq::<String>::empty() =~= spec_dealt(asg_pre, d)
                                        + pre_bucket);
                                } else {
                                    let n = (MAX_LOCAL_LEN / 2) as int;
                                    assert(cdirs == pre_bucket.take(n));
                                    assert(m_now[cdev] == pre_bucket.skip(n));
                                    assert(pre_bucket =~= pre_bucket.take(n)
                                        + pre_bucket.skip(n));
                                    assert((spec_dealt(asg_pre, d) + pre_bucket.take(n))
                                        + pre_bucket.skip(n) =~= spec_dealt(asg_pre, d) + (
                                    pre_bucket.take(n) + pre_bucket.skip(n)));
                                }
                            } else {
                                assert(spec_dealt(asg@, d) == spec_dealt(asg_pre, d));
                                assert(m_now.dom().contains(d) == m_pre.dom().contains(d));
                                assert(spec_remaining(m_now, d) == spec_remaining(m_pre, d));
                            }
                        }
                        assert(self.global_joblist.model().dom().subset_of(
                            old(self).global_joblist.model().dom(),
                        )) by {
                            assert forall|d: u64|
                                self.global_joblist.model().dom().contains(d) implies old(
                                self,
                            ).global_joblist.model().dom().contains(d) by {
                                assert(m_pre.dom().contains(d));
                            }
                        }
                        assert forall|d: u64|
                            !old(self).global_joblist.model().dom().contains(d) implies #[trigger] spec_dealt(
                            asg@,
                            d,
                        ) == Seq::<String>::empty() by {
                            assert(spec_dealt(asg_pre, d) == spec_dealt(asg_pre, d));
                            assert(!m_pre.dom().contains(d));
                            assert(cdev != d);
                            assert(spec_dealt(asg@, d) == spec_dealt(asg_pre, d));
                        }
                    }
                },
                None => {
                    proof {
                        assert(false);
                    }
                },
            }
        }
        (asg, false)
    }

    /// Apply one message and rebalance: a returned chunk joins the store
    /// at its device's bucket, an announced walker joins the idle list,
    /// and then the balance pass runs, with the same conservation as
    /// `job_balance` relative to the state after the message.  Once the
    /// error flag is set, the director instead lets go of all queued work
    /// and all walkers and assigns nothing, so that in-flight walkers
    /// observing the flag are the last activity of the crawl.
    pub fn handle(&mut self, msg: WalkDirMsg, err: bool) -> (r: (Vec<(u8, WalkerMsg)>, bool))
        requires
            old(self).wf(),
            match msg {
                WalkDirMsg::PushJobs(c) => c.dirs@.len() > 0,
                WalkDirMsg::RequireJobs(id) => id < old(self).nwalker && !old(self).pending_walkers@.contains(id),
            },
        ensures
            final(self).wf(),
            final(self).nwalker == old(self).nwalker,
            err ==> final(self).cleared() && r.0@.len() == 0 && !r.1,
            !err ==> ({
                let (asg, done) = r;
                let m1 = match msg {
                    WalkDirMsg::PushJobs(c) => spec_push_model(
                        old(self).global_joblist.model(),
                        c.dev,
                        c.dirs@,
                    ),
                    WalkDirMsg::RequireJobs(_) => old(self).global_joblist.model(),
                };
                let p1 = match msg {
                    WalkDirMsg::PushJobs(_) => old(self).pending_walkers@,
                    WalkDirMsg::RequireJobs(id) => old(self).pending_walkers@.push(id),
                };
                &&& done == ((m1.dom() =~= Set::<u64>::empty()) && p1.len() == old(self).nwalker as int)
                &&& done ==> final(self).cleared() && asg@.len() == 0
                &&& !done ==> (final(self).global_joblist.model().dom() =~= Set::<u64>::empty()
                    || final(self).pending_walkers@.len() == 0)
                &&& !done ==> asg@.len() + final(self).pending_walkers@.len() == p1.len()
                &&& !done ==> final(self).pending_walkers@ == p1.take(
                    final(self).pending_walkers@.len() as int,
                )
                &&& forall|k: int|
                    0 <= k < asg@.len() ==> (#[trigger] asg@[k]).0 == p1[p1.len() - 1 - k]
                &&& forall|k: int|
                    0 <= k < asg@.len() ==> (#[trigger] asg@[k]).1.chunk.dirs@.len() > 0
                        && asg@[k].1.chunk.dirs@.len() <= MAX_LOCAL_LEN / 2
                &&& forall|k: int|
                    0 <= k < asg@.len() ==> m1.dom().contains((#[trigger] asg@[k]).1.chunk.dev)
                &&& final(self).global_joblist.model().dom().subset_of(m1.dom())
                &&& forall|d: u64|
                    m1.dom().contains(d) ==> m1[d] == #[trigger] spec_dealt(asg@, d)
                        + spec_remaining(final(self).global_joblist.model(), d)
                &&& forall|d: u64|
                    !m1.dom().contains(d) ==> #[trigger] spec_dealt(asg@, d) == Seq::<
                        String,
                    >::empty()
            }),
    {
        if err {
            self.global_joblist.clear();
            self.pending_walkers = Vec::new();
            let asg: Vec<(u8, WalkerMsg)> = Vec::new();
            return (asg, false);
        }
        match msg {
            WalkDirMsg::PushJobs(chunk) => {
                let ghost cdev = chunk.dev;
                let ghost cdirs = chunk.dirs@;
                self.global_joblist.push(chunk);
                proof {
                    assert(self.global_joblist.model() =~= spec_push_model(
                        old(self).global_joblist.model(),
                        cdev,
                        cdirs,
                    ));
                }
            },
            WalkDirMsg::RequireJobs(id) => {
                let ghost p0 = self.pending_walkers@;
                self.pending_walkers.push(id);
                proof {
                    assert forall|i: int, j: int|
                        0 <= i < j < self.pending_walkers@.len() implies self.pending_walkers@[i]
                        != self.pending_walkers@[j] by {
                        if j == self.pending_walkers@.len() - 1 {
                            assert(self.pending_walkers@[i] == p0[i]);
                            assert(p0.contains(p0[i]));
                        }
                    }
                }
            },
        }
        self.job_balance()
    }
}

/// A model directory: its filesystem's device id, how many regular files
/// it holds directly, and its subdirectories.  The crawl laws are stated
/// over this tree; the shell's walker applies the same `classify_entry`
/// rule to the real filesystem.
pub struct DirNode {
    pub dev: u64,
    pub nfiles: u64,
    pub subdirs: Vec<DirNode>,
}

/// Every regular file in the tree, boundaries ignored.
pub open spec fn spec_total_files(t: DirNode) -> int
    decreases t, 1int, 0int,
{
    t.nfiles + spec_total_files_children(t.subdirs, t.subdirs@.len() as int)
}

/// The files of the first `k` children, all of them counted.
pub open spec fn spec_total_files_children(v: Vec<DirNode>, k: int) -> int
    decreases v, 0int, k,
{
    if k <= 0 || k > v@.len() {
        0
    } else {
        spec_total_files_children(v, k - 1) + spec_total_files(v@[k - 1])
    }
}

/// The files the crawl counts, starting at `t` as a chunk of its own
/// device: every file of the current directory, then each subdirectory
/// by the walker's rule — same-device directories are descended into;
/// foreign ones only when the one-filesystem policy is off, and then as
/// chunks of their own device.
pub open spec fn spec_crawl_count(t: DirNode, one_fs: bool) -> int
    decreases t, 1int, 0int,
{
    t.nfiles + spec_crawl_children(t.subdirs, t.dev, one_fs, t.subdirs@.len() as int)
}

/// The crawl's count over the first `k` children of a directory on
/// device `parent_dev`.
pub open spec fn spec_crawl_children(v: Vec<DirNode>, parent_dev: u64, one_fs: bool, k: int) -> int
    decreases v, 0int, k,
{
    if k <= 0 || k > v@.len() {
        0
    } else {
        spec_crawl_children(v, parent_dev, one_fs, k - 1) + (
        if v@[k - 1].dev == parent_dev || !one_fs {
            spec_crawl_count(v@[k - 1], one_fs)
        } else {
            0int
        })
    }
}

/// Whether every node of the tree lies on device `d`.
pub open spec fn spec_all_on_dev(t: DirNode, d: u64) -> bool
    decreases t, 1int, 0int,
{
    t.dev == d && spec_all_on_dev_children(t.subdirs, d, t.subdirs@.len() as int)
}

/// Whether the first `k` children all lie entirely on device `d`.
pub open spec fn spec_all_on_dev_children(v: Vec<DirNode>, d: u64, k: int) -> bool
    decreases v, 0int, k,
{
    k <= 0 || k > v@.len() || (spec_all_on_dev_children(v, d, k - 1) && spec_all_on_dev(
        v@[k - 1],
        d,
    ))
}

/// The files of the subtree that stays on device `d`: nothing when the
/// root itself lies elsewhere, else its own files and those of the
/// same-device subtrees of its children.
pub open spec fn spec_files_on_dev(t: DirNode, d: u64) -> int
    decreases t, 1int, 0int,
{
    if t.dev != d {
        0
    } else {
        t.nfiles + spec_files_on_dev_children(t.subdirs, d, t.subdirs@.len() as int)
    }
}

/// The on-device files of the first `k` children.
pub open spec fn spec_files_on_dev_children(v: Vec<DirNode>, d: u64, k: int) -> int
    decreases v, 0int, k,
{
    if k <= 0 || k > v@.len() {
        0
    } else {
        spec_files_on_dev_children(v, d, k - 1) + spec_files_on_dev(v@[k - 1], d)
    }
}

/// Count the files the crawl reaches from `t`, deciding each
/// subdirectory with the walker's own classification rule.
pub fn crawl_count(t: &DirNode, one_fs: bool) -> (r: u64)
    requires
        spec_crawl_count(*t, one_fs) <= u64::MAX,
    ensures
        r == spec_crawl_count(*t, one_fs),
    decreases *t,
{
    proof {
        lemma_crawl_children_nonneg(t.subdirs, t.dev, one_fs, t.subdirs@.len() as int);
    }
    let mut total: u64 = t.nfiles;
    let n = t.subdirs.len();
    let mut i: usize = 0;
    while i < n
        invariant
            0 <= i <= n,
            n == t.subdirs@.len(),
            spec_crawl_count(*t, one_fs) <= u64::MAX,
            total == t.nfiles + spec_crawl_children(t.subdirs, t.dev, one_fs, i as int),
        decreases n - i,
    {
        let child = &t.subdirs[i];
        let action = classify_entry(t.dev, child.dev, EntryKind::Dir, one_fs);
        proof {
            lemma_crawl_children_prefix_le(
                t.subdirs,
                t.dev,
                one_fs,
                i as int + 1,
                t.subdirs@.len() as int,
            );
            lemma_crawl_count_nonneg(t.subdirs@[i as int], one_fs);
            lemma_crawl_children_nonneg(t.subdirs, t.dev, one_fs, i as int);
            vstd::std_specs::vec::axiom_vec_index_decreases(t.subdirs, i as int);
        }
        match action {
            EntryAction::Descend | EntryAction::NewChunk => {
                let c = crawl_count(child, one_fs);
                total = total + c;
            },
            _ => {},
        }
        i = i + 1;
    }
    total
}

/// The crawl's count is never negative.
proof fn lemma_crawl_count_nonneg(t: DirNode, one_fs: bool)
    ensures
        spec_crawl_count(t, one_fs) >= 0,
    decreases t, 1int, 0int,
{
    lemma_crawl_children_nonneg(t.subdirs, t.dev, one_fs, t.subdirs@.len() as int);
}

/// The crawl's count over a child prefix is never negative.
proof fn lemma_crawl_children_nonneg(v: Vec<DirNode>, d: u64, one_fs: bool, k: int)
    ensures
        spec_crawl_children(v, d, one_fs, k) >= 0,
    decreases v, 0int, k,
{
    if 0 < k <= v@.len() {
        lemma_crawl_children_nonneg(v, d, one_fs, k - 1);
        lemma_crawl_count_nonneg(v@[k - 1], one_fs);
    }
}

/// A longer child prefix counts at least as much.
proof fn lemma_crawl_children_prefix_le(v: Vec<DirNode>, d: u64, one_fs: bool, i: int, k: int)
    requires
        0 <= i <= k <= v@.len(),
    ensures
        spec_crawl_children(v, d, one_fs, i) <= spec_crawl_children(v, d, one_fs, k),
    decreases k - i,
{
    if i < k {
        lemma_crawl_children_prefix_le(v, d, one_fs, i + 1, k);
        lemma_crawl_count_nonneg(v@[i], one_fs);
    }
}

/// Walk completeness: with the one-filesystem policy off, the crawl
/// counts every regular file of the tree, device boundaries or not.
pub proof fn lemma_walk_completeness(t: DirNode)
    ensures
        spec_crawl_count(t, false) == spec_total_files(t),
    decreases t, 1int, 0int,
{
    lemma_walk_completeness_children(t.subdirs, t.dev, t.subdirs@.len() as int);
}

proof fn lemma_walk_completeness_children(v: Vec<DirNode>, d: u64, k: int)
    ensures
        spec_crawl_children(v, d, false, k) == spec_total_files_children(v, k),
    decreases v, 0int, k,
{
    if 0 < k <= v@.len() {
        lemma_walk_completeness_children(v, d, k - 1);
        lemma_walk_completeness(v@[k - 1]);
    }
}

/// Walk completeness under the policy: when the whole tree lies on one
/// device, switching the policy on loses nothing.
pub proof fn lemma_walk_completeness_one_fs(t: DirNode, d: u64)
    requires
        spec_all_on_dev(t, d),
    ensures
        spec_crawl_count(t, true) == spec_total_files(t),
    decreases t, 1int, 0int,
{
    lemma_walk_completeness_one_fs_children(t.subdirs, t.dev, t.subdirs@.len() as int);
}

proof fn lemma_walk_completeness_one_fs_children(v: Vec<DirNode>, d: u64, k: int)
    requires
        spec_all_on_dev_children(v, d, k),
    ensures
        spec_crawl_children(v, d, true, k) == spec_total_files_children(v, k),
    decreases v, 0int, k,
{
    if 0 < k <= v@.len() {
        lemma_walk_completeness_one_fs_children(v, d, k - 1);
        lemma_walk_completeness_one_fs(v@[k - 1], d);
    }
}

/// One-filesystem containment: with the policy on, the crawl counts
/// exactly the files of the subtree that stays on the root's device —
/// no file on any other device enters the count.
pub proof fn lemma_one_fs_containment(t: DirNode)
    ensures
        spec_crawl_count(t, true) == spec_files_on_dev(t, t.dev),
    decreases t, 1int, 0int,
{
    lemma_one_fs_containment_children(t.subdirs, t.dev, t.subdirs@.len() as int);
}

proof fn lemma_one_fs_containment_children(v: Vec<DirNode>, d: u64, k: int)
    ensures
        spec_crawl_children(v, d, true, k) == spec_files_on_dev_children(v, d, k),
    decreases v, 0int, k,
{
    if 0 < k <= v@.len() {
        lemma_one_fs_containment_children(v, d, k - 1);
        let c = v@[k - 1];
        if c.dev == d {
            lemma_one_fs_containment(c);
            assert(spec_files_on_dev(c, d) == spec_files_on_dev(c, c.dev));
        } else {
            assert(spec_files_on_dev(c, d) == 0);
        }
        assert(spec_crawl_children(v, d, true, k) == spec_crawl_children(v, d, true, k - 1) + (
        if c.dev == d {
            spec_crawl_count(c, true)
        } else {
            0int
        }));
        assert(spec_files_on_dev_children(v, d, k) == spec_files_on_dev_children(v, d, k - 1)
            + spec_files_on_dev(c, d));
    }
}

} // verus!
