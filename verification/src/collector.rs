//! The aggregator actor: consumes batches of extent references and
//! per-worker file counts, owns the seen-extent set, and accumulates the
//! final statistics.  The laws of the counting rule — deduplication,
//! count consistency, and order independence — are stated and proved here.

use vstd::prelude::*;
use crate::btrfs::{ExtentInfo, ExtentType};
use crate::scale::{agg_model, spec_bounded, spec_insert, AggModel, CompsizeStat, ExtentMap, StatModel};

verus! {

/// A message to the aggregator: a batch of decoded extents, or the number
/// of files one worker processed.
pub enum CollectorMsg {
    Extent(Vec<ExtentInfo>),
    NFile(u64),
}

/// The aggregator: the running statistics and the set of extent keys
/// already counted.
pub struct Collector {
    pub stat: CompsizeStat,
    pub extent_map: ExtentMap,
}

/// Fold the counting rule over a batch, oldest first.
pub open spec fn spec_aggregate(m: AggModel, s: Seq<ExtentInfo>) -> AggModel
    decreases s.len(),
{
    if s.len() == 0 {
        m
    } else {
        spec_insert(spec_aggregate(m, s.drop_last()), s.last())
    }
}

/// What one message does to the aggregator's state.
pub open spec fn spec_handle(m: AggModel, msg: CollectorMsg) -> AggModel {
    match msg {
        CollectorMsg::Extent(v) => spec_aggregate(m, v@),
        CollectorMsg::NFile(n) => AggModel { nfile: m.nfile + n, ..m },
    }
}

/// One insert only grows the model's fields and seen set.
pub proof fn lemma_insert_monotone(m: AggModel, e: ExtentInfo)
    requires
        m.comp.len() == 4,
    ensures
        m.nfile <= spec_insert(m, e).nfile,
        m.ninline <= spec_insert(m, e).ninline,
        m.nref <= spec_insert(m, e).nref,
        m.nextent <= spec_insert(m, e).nextent,
        m.prealloc.disk <= spec_insert(m, e).prealloc.disk,
        m.prealloc.uncomp <= spec_insert(m, e).prealloc.uncomp,
        m.prealloc.refd <= spec_insert(m, e).prealloc.refd,
        spec_insert(m, e).comp.len() == m.comp.len(),
        forall|i: int|
            0 <= i < m.comp.len() ==> (#[trigger] m.comp[i]).disk <= spec_insert(m, e).comp[i].disk
                && m.comp[i].uncomp <= spec_insert(m, e).comp[i].uncomp && m.comp[i].refd
                <= spec_insert(m, e).comp[i].refd,
{
    let ci = e.compression.spec_index();
    let m1 = spec_insert(m, e);
    assert(m1.comp.len() == m.comp.len());
    assert forall|i: int|
        0 <= i < m.comp.len() implies (#[trigger] m.comp[i]).disk <= m1.comp[i].disk
        && m.comp[i].uncomp <= m1.comp[i].uncomp && m.comp[i].refd <= m1.comp[i].refd by {
        if i != ci {
            assert(m1.comp[i] == m.comp[i]);
        }
    }
}

/// The fold keeps the number of compression classes.
pub proof fn lemma_aggregate_comp_len(m: AggModel, s: Seq<ExtentInfo>)
    requires
        m.comp.len() == 4,
    ensures
        spec_aggregate(m, s).comp.len() == m.comp.len(),
    decreases s.len(),
{
    if s.len() > 0 {
        lemma_aggregate_comp_len(m, s.drop_last());
        let prev = spec_aggregate(m, s.drop_last());
        let ci = s.last().compression.spec_index();
        assert(spec_insert(prev, s.last()).comp.len() == prev.comp.len());
    }
}

/// A prefix of a fold is bounded whenever the whole fold is.
pub proof fn lemma_aggregate_bounded_prefix(m: AggModel, s: Seq<ExtentInfo>, i: int)
    requires
        m.comp.len() == 4,
        0 <= i <= s.len(),
        spec_bounded(spec_aggregate(m, s)),
    ensures
        spec_bounded(spec_aggregate(m, s.take(i))),
    decreases s.len() - i,
{
    if i < s.len() {
        lemma_aggregate_bounded_prefix(m, s, i + 1);
        let t = s.take(i + 1);
        assert(t.drop_last() =~= s.take(i));
        assert(spec_aggregate(m, s.take(i + 1)) == spec_insert(
            spec_aggregate(m, s.take(i)),
            s[i],
        ));
        lemma_aggregate_comp_len(m, s.take(i));
        lemma_insert_monotone(spec_aggregate(m, s.take(i)), s[i]);
    } else {
        assert(s.take(i) =~= s);
    }
}

impl Collector {
    /// A fresh aggregator: zero statistics, no extents seen.
    pub fn new() -> (r: Self)
        ensures
            r.stat == CompsizeStat::spec_zero(),
            r.extent_map@ == Set::<u64>::empty(),
    {
        Collector { stat: CompsizeStat::default(), extent_map: ExtentMap::new() }
    }

    /// The aggregator's state as a mathematical value.
    pub open spec fn model(&self) -> AggModel {
        agg_model(self.stat, self.extent_map@)
    }

    /// Apply one message.  The caller keeps the totals within u64 range;
    /// real extent sizes stay far below it.
    pub fn handle(&mut self, msg: CollectorMsg)
        requires
            spec_bounded(spec_handle(old(self).model(), msg)),
        ensures
            final(self).model() == spec_handle(old(self).model(), msg),
    {
        let ghost m0 = self.model();
        match msg {
            CollectorMsg::Extent(extents) => {
                let n = extents.len();
                let mut i: usize = 0;
                while i < n
                    invariant
                        0 <= i <= n,
                        n == extents@.len(),
                        m0.comp.len() == 4,
                        self.model() == spec_aggregate(m0, extents@.take(i as int)),
                        spec_bounded(spec_aggregate(m0, extents@)),
                    decreases n - i,
                {
                    proof {
                        let t = extents@.take(i as int + 1);
                        assert(t.drop_last() =~= extents@.take(i as int));
                        assert(t.last() == extents@[i as int]);
                        lemma_aggregate_bounded_prefix(m0, extents@, i as int + 1);
                    }
                    let e = extents[i];
                    self.stat.insert(&mut self.extent_map, e);
                    i = i + 1;
                }
                proof {
                    assert(extents@.take(n as int) =~= extents@);
                }
            },
            CollectorMsg::NFile(n) => {
                let nf = self.stat.nfile_mut();
                *nf = *nf + n;
                proof {
                    assert(self.model() =~~= spec_handle(m0, CollectorMsg::NFile(n)));
                }
            },
        }
    }
}

/// Whether an extent is a regular or preallocated reference — the kinds
/// whose physical extents are deduplicated by key.
pub open spec fn is_ref_kind(e: ExtentInfo) -> bool {
    e.kind == ExtentType::Regular || e.kind == ExtentType::Prealloc
}

/// The distinct keys of the regular and preallocated references in `s`.
pub open spec fn spec_key_set(s: Seq<ExtentInfo>) -> Set<u64>
    decreases s.len(),
{
    if s.len() == 0 {
        Set::empty()
    } else if is_ref_kind(s.last()) {
        spec_key_set(s.drop_last()).insert(s.last().disk_bytenr)
    } else {
        spec_key_set(s.drop_last())
    }
}

/// How many regular and preallocated references `s` holds.
pub open spec fn spec_count_refs(s: Seq<ExtentInfo>) -> int
    decreases s.len(),
{
    if s.len() == 0 {
        0
    } else {
        spec_count_refs(s.drop_last()) + if is_ref_kind(s.last()) {
            1int
        } else {
            0int
        }
    }
}

/// How many inline extents `s` holds.
pub open spec fn spec_count_inline(s: Seq<ExtentInfo>) -> int
    decreases s.len(),
{
    if s.len() == 0 {
        0
    } else {
        spec_count_inline(s.drop_last()) + if s.last().kind == ExtentType::Inline {
            1int
        } else {
            0int
        }
    }
}

/// The key set of a batch is finite.
pub proof fn lemma_key_set_finite(s: Seq<ExtentInfo>)
    ensures
        spec_key_set(s).finite(),
    decreases s.len(),
{
    if s.len() > 0 {
        lemma_key_set_finite(s.drop_last());
    }
}

/// Count consistency: after a batch, the extent count has grown by the
/// number of distinct new keys among regular and preallocated references,
/// the reference count by the number of such references, the inline count
/// by the number of inline extents, the seen set by exactly the batch's
/// keys, and the file count not at all.
pub proof fn lemma_count_consistency(m: AggModel, s: Seq<ExtentInfo>)
    requires
        m.seen.finite(),
    ensures
        spec_aggregate(m, s).nfile == m.nfile,
        spec_aggregate(m, s).nref == m.nref + spec_count_refs(s),
        spec_aggregate(m, s).ninline == m.ninline + spec_count_inline(s),
        spec_aggregate(m, s).seen == m.seen + spec_key_set(s),
        spec_aggregate(m, s).nextent == m.nextent + spec_key_set(s).difference(m.seen).len(),
    decreases s.len(),
{
    lemma_key_set_finite(s);
    if s.len() == 0 {
        assert(m.seen + spec_key_set(s) =~= m.seen);
        assert(spec_key_set(s).difference(m.seen) =~= Set::<u64>::empty());
    } else {
        let sp = s.drop_last();
        let e = s.last();
        let k = e.disk_bytenr;
        lemma_count_consistency(m, sp);
        lemma_key_set_finite(sp);
        let ap = spec_aggregate(m, sp);
        let ksp = spec_key_set(sp);
        let ks = spec_key_set(s);
        if !is_ref_kind(e) {
            assert(m.seen + ks =~= m.seen + ksp);
            assert(ks.difference(m.seen) =~= ksp.difference(m.seen));
        } else {
            assert(ks == ksp.insert(k));
            if ap.seen.contains(k) {
                assert(m.seen + ks =~= m.seen + ksp);
                assert(ks.difference(m.seen) =~= ksp.difference(m.seen)) by {
                    assert(m.seen.contains(k) || ksp.contains(k));
                }
            } else {
                assert(m.seen + ks =~= (m.seen + ksp).insert(k));
                assert(ks.difference(m.seen) =~= ksp.difference(m.seen).insert(k));
                assert(!ksp.difference(m.seen).contains(k));
                assert(ksp.difference(m.seen).finite());
                assert(ks.difference(m.seen).len() == ksp.difference(m.seen).len() + 1);
            }
        }
    }
}

/// The referenced bytes that the elements of `s` contribute to the class
/// with index `ci`: every inline or regular reference of that class
/// contributes its own `refd`, on every occurrence.
pub open spec fn spec_refd_sum(s: Seq<ExtentInfo>, ci: int) -> int
    decreases s.len(),
{
    if s.len() == 0 {
        0
    } else {
        spec_refd_sum(s.drop_last(), ci) + if s.last().kind != ExtentType::Prealloc
            && s.last().compression.spec_index() == ci {
            s.last().stat.refd as int
        } else {
            0int
        }
    }
}

/// The referenced bytes that the preallocated references of `s`
/// contribute, on every occurrence.
pub open spec fn spec_prealloc_refd_sum(s: Seq<ExtentInfo>) -> int
    decreases s.len(),
{
    if s.len() == 0 {
        0
    } else {
        spec_prealloc_refd_sum(s.drop_last()) + if s.last().kind == ExtentType::Prealloc {
            s.last().stat.refd as int
        } else {
            0int
        }
    }
}

/// Half of extent dedup: referenced bytes accumulate once per reference,
/// whatever its key — each bucket's `refd` grows by exactly the sum over
/// all of the batch's elements that feed that bucket.
pub proof fn lemma_extent_dedup_refd(m: AggModel, s: Seq<ExtentInfo>)
    requires
        m.comp.len() == 4,
    ensures
        spec_aggregate(m, s).prealloc.refd == m.prealloc.refd + spec_prealloc_refd_sum(s),
        forall|ci: int|
            0 <= ci < 4 ==> (#[trigger] spec_aggregate(m, s).comp[ci]).refd == m.comp[ci].refd
                + spec_refd_sum(s, ci),
    decreases s.len(),
{
    if s.len() > 0 {
        let sp = s.drop_last();
        let e = s.last();
        lemma_extent_dedup_refd(m, sp);
        lemma_aggregate_comp_len(m, sp);
        let ap = spec_aggregate(m, sp);
        let ei = e.compression.spec_index();
        assert forall|ci: int|
            0 <= ci < 4 implies (#[trigger] spec_aggregate(m, s).comp[ci]).refd == m.comp[ci].refd
            + spec_refd_sum(s, ci) by {
            if ci != ei {
                assert(spec_insert(ap, e).comp[ci] == ap.comp[ci]);
            }
        }
    }
}

/// The other half of extent dedup: appending one more extent adds its
/// disk and uncompressed bytes to its bucket exactly when its key has not
/// been seen — neither in the starting state nor earlier in the batch —
/// while an inline extent always adds all three of its fields.
pub proof fn lemma_extent_dedup_step(m: AggModel, s: Seq<ExtentInfo>, e: ExtentInfo)
    requires
        m.comp.len() == 4,
        m.seen.finite(),
    ensures
        spec_aggregate(m, s.push(e)) == spec_insert(spec_aggregate(m, s), e),
        spec_aggregate(m, s).seen == m.seen + spec_key_set(s),
        ({
            let a = spec_aggregate(m, s);
            let b = spec_aggregate(m, s.push(e));
            let ci = e.compression.spec_index();
            &&& (e.kind == ExtentType::Regular && (m.seen + spec_key_set(s)).contains(
                e.disk_bytenr,
            )) ==> b == AggModel {
                nref: a.nref + 1,
                comp: a.comp.update(
                    ci,
                    StatModel {
                        disk: a.comp[ci].disk,
                        uncomp: a.comp[ci].uncomp,
                        refd: a.comp[ci].refd + e.stat.refd,
                    },
                ),
                ..a
            }
            &&& (e.kind == ExtentType::Regular && !(m.seen + spec_key_set(s)).contains(
                e.disk_bytenr,
            )) ==> b == AggModel {
                nref: a.nref + 1,
                nextent: a.nextent + 1,
                seen: a.seen.insert(e.disk_bytenr),
                comp: a.comp.update(
                    ci,
                    StatModel {
                        disk: a.comp[ci].disk + e.stat.disk,
                        uncomp: a.comp[ci].uncomp + e.stat.uncomp,
                        refd: a.comp[ci].refd + e.stat.refd,
                    },
                ),
                ..a
            }
            &&& (e.kind == ExtentType::Prealloc && (m.seen + spec_key_set(s)).contains(
                e.disk_bytenr,
            )) ==> b == AggModel {
                nref: a.nref + 1,
                prealloc: StatModel {
                    disk: a.prealloc.disk,
                    uncomp: a.prealloc.uncomp,
                    refd: a.prealloc.refd + e.stat.refd,
                },
                ..a
            }
            &&& (e.kind == ExtentType::Prealloc && !(m.seen + spec_key_set(s)).contains(
                e.disk_bytenr,
            )) ==> b == AggModel {
                nref: a.nref + 1,
                nextent: a.nextent + 1,
                seen: a.seen.insert(e.disk_bytenr),
                prealloc: StatModel {
                    disk: a.prealloc.disk + e.stat.disk,
                    uncomp: a.prealloc.uncomp + e.stat.uncomp,
                    refd: a.prealloc.refd + e.stat.refd,
                },
                ..a
            }
            &&& e.kind == ExtentType::Inline ==> b == AggModel {
                ninline: a.ninline + 1,
                comp: a.comp.update(
                    ci,
                    StatModel {
                        disk: a.comp[ci].disk + e.stat.disk,
                        uncomp: a.comp[ci].uncomp + e.stat.uncomp,
                        refd: a.comp[ci].refd + e.stat.refd,
                    },
                ),
                ..a
            }
        }),
{
    assert(s.push(e).drop_last() =~= s);
    assert(s.push(e).last() == e);
    lemma_count_consistency(m, s);
    lemma_aggregate_comp_len(m, s);
    let a = spec_aggregate(m, s);
    let b = spec_insert(a, e);
    let ci = e.compression.spec_index();
    match e.kind {
        ExtentType::Inline => {
            assert(b.comp[ci] =~= a.comp[ci].plus(e.stat.model()));
            assert(b =~~= AggModel {
                ninline: a.ninline + 1,
                comp: a.comp.update(
                    ci,
                    StatModel {
                        disk: a.comp[ci].disk + e.stat.disk,
                        uncomp: a.comp[ci].uncomp + e.stat.uncomp,
                        refd: a.comp[ci].refd + e.stat.refd,
                    },
                ),
                ..a
            });
        },
        ExtentType::Regular => {
            if a.seen.contains(e.disk_bytenr) {
                assert(b =~~= AggModel {
                    nref: a.nref + 1,
                    comp: a.comp.update(
                        ci,
                        StatModel {
                            disk: a.comp[ci].disk,
                            uncomp: a.comp[ci].uncomp,
                            refd: a.comp[ci].refd + e.stat.refd,
                        },
                    ),
                    ..a
                });
            } else {
                assert(b =~~= AggModel {
                    nref: a.nref + 1,
                    nextent: a.nextent + 1,
                    seen: a.seen.insert(e.disk_bytenr),
                    comp: a.comp.update(
                        ci,
                        StatModel {
                            disk: a.comp[ci].disk + e.stat.disk,
                            uncomp: a.comp[ci].uncomp + e.stat.uncomp,
                            refd: a.comp[ci].refd + e.stat.refd,
                        },
                    ),
                    ..a
                });
            }
        },
        ExtentType::Prealloc => {
            if a.seen.contains(e.disk_bytenr) {
                assert(b =~~= AggModel {
                    nref: a.nref + 1,
                    prealloc: StatModel {
                        disk: a.prealloc.disk,
                        uncomp: a.prealloc.uncomp,
                        refd: a.prealloc.refd + e.stat.refd,
                    },
                    ..a
                });
            } else {
                assert(b =~~= AggModel {
                    nref: a.nref + 1,
                    nextent: a.nextent + 1,
                    seen: a.seen.insert(e.disk_bytenr),
                    prealloc: StatModel {
                        disk: a.prealloc.disk + e.stat.disk,
                        uncomp: a.prealloc.uncomp + e.stat.uncomp,
                        refd: a.prealloc.refd + e.stat.refd,
                    },
                    ..a
                });
            }
        },
    }
}

/// Two extent records agree where it matters: if both are regular or
/// preallocated references to the same physical extent, they describe it
/// identically — same kind, class, disk and uncompressed bytes.  Every
/// batch a real filesystem produces is consistent in this sense.
pub open spec fn compat(a: ExtentInfo, b: ExtentInfo) -> bool {
    (is_ref_kind(a) && is_ref_kind(b) && a.disk_bytenr == b.disk_bytenr) ==> (a.kind == b.kind
        && a.compression == b.compression && a.stat.disk == b.stat.disk && a.stat.uncomp
        == b.stat.uncomp)
}

/// Whether every pair of elements of `s` is compatible.
pub open spec fn consistent(s: Seq<ExtentInfo>) -> bool {
    forall|i: int, j: int|
        0 <= i < s.len() && 0 <= j < s.len() ==> compat(#[trigger] s[i], #[trigger] s[j])
}

/// Two compatible inserts commute.
proof fn lemma_insert_commute(m: AggModel, a: ExtentInfo, b: ExtentInfo)
    requires
        m.comp.len() == 4,
        compat(a, b),
    ensures
        spec_insert(spec_insert(m, a), b) == spec_insert(spec_insert(m, b), a),
{
    let l = spec_insert(spec_insert(m, a), b);
    let r = spec_insert(spec_insert(m, b), a);
    let ia = a.compression.spec_index();
    let ib = b.compression.spec_index();
    if ia == ib {
        assert(l.comp =~= r.comp);
    } else {
        assert(l.comp =~= r.comp);
    }
    assert(l =~~= r);
}

/// Removing an element keeps a batch consistent.
proof fn lemma_consistent_remove(s: Seq<ExtentInfo>, i: int)
    requires
        consistent(s),
        0 <= i < s.len(),
    ensures
        consistent(s.remove(i)),
{
    let t = s.remove(i);
    assert forall|x: int, y: int|
        0 <= x < t.len() && 0 <= y < t.len() implies compat(#[trigger] t[x], #[trigger] t[y]) by {
        let sx: int = if x < i {
            x
        } else {
            x + 1
        };
        let sy: int = if y < i {
            y
        } else {
            y + 1
        };
        assert(t[x] == s[sx]);
        assert(t[y] == s[sy]);
        assert(compat(s[sx], s[sy]));
    }
}

/// Dropping the last element keeps a batch consistent.
proof fn lemma_consistent_drop_last(s: Seq<ExtentInfo>)
    requires
        consistent(s),
        s.len() > 0,
    ensures
        consistent(s.drop_last()),
{
    let t = s.drop_last();
    assert forall|x: int, y: int|
        0 <= x < t.len() && 0 <= y < t.len() implies compat(#[trigger] t[x], #[trigger] t[y]) by {
        assert(t[x] == s[x]);
        assert(t[y] == s[y]);
        assert(compat(s[x], s[y]));
    }
}

/// Any element of a consistent batch may be applied last instead of in
/// place, without changing the fold.
proof fn lemma_move_to_end(m: AggModel, s: Seq<ExtentInfo>, i: int)
    requires
        m.comp.len() == 4,
        consistent(s),
        0 <= i < s.len(),
    ensures
        spec_aggregate(m, s) == spec_insert(spec_aggregate(m, s.remove(i)), s[i]),
    decreases s.len(),
{
    if i == s.len() - 1 {
        assert(s.remove(i) =~= s.drop_last());
    } else {
        let sp = s.drop_last();
        let l = s.last();
        lemma_consistent_drop_last(s);
        lemma_move_to_end(m, sp, i);
        lemma_aggregate_comp_len(m, sp.remove(i));
        assert(compat(s[i], l));
        lemma_insert_commute(spec_aggregate(m, sp.remove(i)), sp[i], l);
        assert(s.remove(i) =~= sp.remove(i).push(l));
        assert(s.remove(i).drop_last() =~= sp.remove(i));
        assert(s.remove(i).last() == l);
        assert(spec_aggregate(m, s.remove(i)) == spec_insert(
            spec_aggregate(m, sp.remove(i)),
            l,
        ));
        assert(spec_aggregate(m, s) == spec_insert(spec_aggregate(m, sp), l));
        assert(spec_aggregate(m, sp) == spec_insert(spec_aggregate(m, sp.remove(i)), sp[i]));
        assert(sp[i] == s[i]);
    }
}

/// Commutativity: the aggregate of a consistent batch does not depend on
/// the order of its elements — any two batches holding the same multiset
/// of extent records fold to the same state.
pub proof fn lemma_aggregate_permutation(m: AggModel, s1: Seq<ExtentInfo>, s2: Seq<ExtentInfo>)
    requires
        m.comp.len() == 4,
        consistent(s1),
        s1.to_multiset() == s2.to_multiset(),
    ensures
        spec_aggregate(m, s1) == spec_aggregate(m, s2),
    decreases s2.len(),
{
    broadcast use vstd::seq_lib::group_to_multiset_ensures;

    if s2.len() == 0 {
        assert(s1.to_multiset().len() == 0);
        assert(s1.len() == 0);
    } else {
        let b = s2.last();
        let s2p = s2.drop_last();
        assert(s2 == s2p.push(b));
        assert(s2.to_multiset().count(b) > 0);
        assert(s1.to_multiset().count(b) > 0);
        assert(s1.contains(b));
        let i = choose|i: int| 0 <= i < s1.len() && s1[i] == b;
        lemma_move_to_end(m, s1, i);
        assert(s1.remove(i).to_multiset() =~= s1.to_multiset().remove(b));
        assert(s2p.to_multiset() =~= s2.to_multiset().remove(b)) by {
            assert(s2p.push(b).to_multiset() =~= s2p.to_multiset().insert(b));
        }
        lemma_consistent_remove(s1, i);
        lemma_aggregate_permutation(m, s1.remove(i), s2p);
        assert(spec_aggregate(m, s2) == spec_insert(spec_aggregate(m, s2p), b));
    }
}

/// Fold a whole sequence of messages, oldest first.
pub open spec fn spec_run(m: AggModel, msgs: Seq<CollectorMsg>) -> AggModel
    decreases msgs.len(),
{
    if msgs.len() == 0 {
        m
    } else {
        spec_handle(spec_run(m, msgs.drop_last()), msgs.last())
    }
}

/// The sum of all per-worker file counts among the messages.
pub open spec fn spec_nfile_total(msgs: Seq<CollectorMsg>) -> int
    decreases msgs.len(),
{
    if msgs.len() == 0 {
        0
    } else {
        spec_nfile_total(msgs.drop_last()) + match msgs.last() {
            CollectorMsg::NFile(n) => n as int,
            CollectorMsg::Extent(_) => 0int,
        }
    }
}

/// Every extent delivered by the messages, in delivery order.
pub open spec fn spec_all_extents(msgs: Seq<CollectorMsg>) -> Seq<ExtentInfo>
    decreases msgs.len(),
{
    if msgs.len() == 0 {
        Seq::empty()
    } else {
        spec_all_extents(msgs.drop_last()) + match msgs.last() {
            CollectorMsg::Extent(v) => v@,
            CollectorMsg::NFile(_) => Seq::<ExtentInfo>::empty(),
        }
    }
}

/// Folding a concatenation is folding one batch after the other.
pub proof fn lemma_aggregate_concat(m: AggModel, a: Seq<ExtentInfo>, b: Seq<ExtentInfo>)
    ensures
        spec_aggregate(m, a + b) == spec_aggregate(spec_aggregate(m, a), b),
    decreases b.len(),
{
    if b.len() == 0 {
        assert(a + b =~= a);
    } else {
        lemma_aggregate_concat(m, a, b.drop_last());
        assert((a + b).drop_last() =~= a + b.drop_last());
        assert((a + b).last() == b.last());
    }
}

/// The extent fold neither reads nor writes the file counter.
proof fn lemma_aggregate_nfile(m: AggModel, x: int, s: Seq<ExtentInfo>)
    ensures
        spec_aggregate(AggModel { nfile: x, ..m }, s) == (AggModel {
            nfile: x,
            ..spec_aggregate(m, s)
        }),
    decreases s.len(),
{
    if s.len() > 0 {
        lemma_aggregate_nfile(m, x, s.drop_last());
        let a = spec_aggregate(m, s.drop_last());
        let e = s.last();
        assert(spec_insert(AggModel { nfile: x, ..a }, e) =~~= (AggModel {
            nfile: x,
            ..spec_insert(a, e)
        }));
    }
}

/// A run of messages splits into its file counts and its extents: the
/// final state is the extent fold of everything delivered, with the file
/// counter advanced by the sum of the count messages.
pub proof fn lemma_run_splits(m: AggModel, msgs: Seq<CollectorMsg>)
    ensures
        spec_run(m, msgs) == (AggModel {
            nfile: m.nfile + spec_nfile_total(msgs),
            ..spec_aggregate(m, spec_all_extents(msgs))
        }),
    decreases msgs.len(),
{
    if msgs.len() == 0 {
        assert(spec_run(m, msgs) =~~= (AggModel {
            nfile: m.nfile + spec_nfile_total(msgs),
            ..spec_aggregate(m, spec_all_extents(msgs))
        }));
    } else {
        lemma_run_splits(m, msgs.drop_last());
        let mp = msgs.drop_last();
        let ap = spec_all_extents(mp);
        let tp = spec_nfile_total(mp);
        match msgs.last() {
            CollectorMsg::NFile(n) => {
                assert(spec_all_extents(msgs) =~= ap);
                assert(spec_run(m, msgs) =~~= (AggModel {
                    nfile: m.nfile + tp + n,
                    ..spec_aggregate(m, ap)
                }));
            },
            CollectorMsg::Extent(v) => {
                lemma_aggregate_nfile(spec_aggregate(m, ap), m.nfile + tp, v@);
                lemma_aggregate_concat(m, ap, v@);
                assert(spec_run(m, msgs) == spec_aggregate(
                    AggModel { nfile: m.nfile + tp, ..spec_aggregate(m, ap) },
                    v@,
                ));
                assert(spec_aggregate(AggModel { nfile: m.nfile + tp, ..spec_aggregate(m, ap) }, v@)
                    =~~= (AggModel {
                    nfile: m.nfile + tp,
                    ..spec_aggregate(m, ap + v@)
                }));
            },
        }
    }
}

/// Count consistency over a whole run: after all messages, the file count
/// is the sum of the count messages, the reference and inline counts are
/// the numbers of such extents delivered, and the extent count is the
/// number of distinct new keys among the delivered references.
pub proof fn lemma_count_consistency_msgs(m: AggModel, msgs: Seq<CollectorMsg>)
    requires
        m.seen.finite(),
    ensures
        spec_run(m, msgs).nfile == m.nfile + spec_nfile_total(msgs),
        spec_run(m, msgs).nref == m.nref + spec_count_refs(spec_all_extents(msgs)),
        spec_run(m, msgs).ninline == m.ninline + spec_count_inline(spec_all_extents(msgs)),
        spec_run(m, msgs).seen == m.seen + spec_key_set(spec_all_extents(msgs)),
        spec_run(m, msgs).nextent == m.nextent + spec_key_set(
            spec_all_extents(msgs),
        ).difference(m.seen).len(),
{
    lemma_run_splits(m, msgs);
    lemma_count_consistency(m, spec_all_extents(msgs));
}

/// Extent dedup over a whole run: however the extents were batched and
/// interleaved with file counts, each bucket's referenced bytes grow by
/// the sum over every delivered reference.
pub proof fn lemma_extent_dedup_refd_msgs(m: AggModel, msgs: Seq<CollectorMsg>)
    requires
        m.comp.len() == 4,
    ensures
        spec_run(m, msgs).prealloc.refd == m.prealloc.refd + spec_prealloc_refd_sum(
            spec_all_extents(msgs),
        ),
        forall|ci: int|
            0 <= ci < 4 ==> (#[trigger] spec_run(m, msgs).comp[ci]).refd == m.comp[ci].refd
                + spec_refd_sum(spec_all_extents(msgs), ci),
{
    lemma_run_splits(m, msgs);
    lemma_extent_dedup_refd(m, spec_all_extents(msgs));
}

} // verus!
