//! Number formatting for the output table: exact decimal byte counts and
//! the human-readable scaling used by `compsize`, together with a decimal
//! parser and the proof that parsing inverts formatting.

use vstd::prelude::*;
use vstd::arithmetic::div_mod::{lemma_div_denominator, lemma_div_is_ordered};
use crate::btrfs::{Compression, ExtentInfo, ExtentType, Stat};
use std::collections::HashSet;

verus! {

broadcast use vstd::std_specs::hash::group_hash_axioms;

/// The set of physical extent keys already accounted, with the aggregate
/// counting each extent's disk and uncompressed bytes exactly once.
pub type ExtentMap = HashSet<u64>;

/// How numbers are rendered: exact byte counts, or scaled to a unit.
#[derive(Debug, Clone, Copy, PartialEq, Eq, Structural)]
pub enum Scale {
    Bytes,
    Human,
}

/// The decimal digits of `n`, most significant first, as ASCII bytes.
pub open spec fn spec_dec_digits(n: nat) -> Seq<u8>
    decreases n,
{
    if n < 10 {
        seq![(48 + n) as u8]
    } else {
        spec_dec_digits(n / 10).push((48 + n % 10) as u8)
    }
}

/// The numeric value of a run of ASCII digits, most significant first.
pub open spec fn spec_dec_value(s: Seq<u8>) -> int
    decreases s.len(),
{
    if s.len() == 0 {
        0
    } else {
        spec_dec_value(s.drop_last()) * 10 + s.last() - 48
    }
}

/// Whether every byte of `s` is an ASCII digit.
pub open spec fn spec_is_digits(s: Seq<u8>) -> bool {
    forall|i: int| 0 <= i < s.len() ==> 48 <= #[trigger] s[i] <= 57
}

/// Render `n` as decimal ASCII digits.
pub fn fmt_u64(n: u64) -> (v: Vec<u8>)
    ensures
        v@ == spec_dec_digits(n as nat),
    decreases n,
{
    if n < 10 {
        let mut v: Vec<u8> = Vec::new();
        v.push(48 + n as u8);
        proof {
            assert(v@ =~= spec_dec_digits(n as nat));
        }
        v
    } else {
        let mut v = fmt_u64(n / 10);
        v.push(48 + (n % 10) as u8);
        v
    }
}

/// Digits render as digits: every byte of `spec_dec_digits` is one.
pub proof fn lemma_dec_digits_are_digits(n: nat)
    ensures
        spec_is_digits(spec_dec_digits(n)),
        spec_dec_digits(n).len() >= 1,
    decreases n,
{
    if n >= 10 {
        lemma_dec_digits_are_digits(n / 10);
        assert forall|i: int| 0 <= i < spec_dec_digits(n).len() implies 48 <= #[trigger] spec_dec_digits(
            n,
        )[i] <= 57 by {
            if i < spec_dec_digits(n / 10).len() {
                assert(spec_dec_digits(n)[i] == spec_dec_digits(n / 10)[i]);
            }
        }
    }
}

/// The decimal value of the digits of `n` is `n` itself.
pub proof fn lemma_dec_digits_value(n: nat)
    ensures
        spec_dec_value(spec_dec_digits(n)) == n,
    decreases n,
{
    if n < 10 {
        assert(spec_dec_digits(n) =~= seq![(48 + n) as u8]);
        assert(spec_dec_digits(n).drop_last() =~= Seq::<u8>::empty());
        assert(spec_dec_digits(n).last() == (48 + n) as u8);
        assert(spec_dec_value(spec_dec_digits(n)) == spec_dec_value(Seq::<u8>::empty()) * 10 + (48
            + n) as u8 - 48);
    } else {
        lemma_dec_digits_value(n / 10);
        assert(spec_dec_digits(n) == spec_dec_digits(n / 10).push((48 + n % 10) as u8));
        assert(spec_dec_digits(n).drop_last() =~= spec_dec_digits(n / 10));
        assert(spec_dec_digits(n).last() == (48 + n % 10) as u8);
        assert(spec_dec_value(spec_dec_digits(n)) == n / 10 * 10 + (48 + n % 10) as u8 - 48);
        assert(n / 10 * 10 + n % 10 == n) by {
            vstd::arithmetic::div_mod::lemma_fundamental_div_mod(n as int, 10);
        }
    }
}

/// The value of a digit run never decreases as digits are appended.
proof fn lemma_dec_value_nonneg(s: Seq<u8>)
    requires
        spec_is_digits(s),
    ensures
        spec_dec_value(s) >= 0,
    decreases s.len(),
{
    if s.len() > 0 {
        assert(spec_is_digits(s.drop_last()));
        lemma_dec_value_nonneg(s.drop_last());
    }
}

/// A proper prefix of a digit run never has a larger value than the whole.
proof fn lemma_dec_value_prefix_le(s: Seq<u8>, i: int)
    requires
        spec_is_digits(s),
        0 <= i <= s.len(),
    ensures
        spec_dec_value(s.take(i)) <= spec_dec_value(s),
    decreases s.len() - i,
{
    if i < s.len() {
        lemma_dec_value_prefix_le(s, i + 1);
        let t = s.take(i + 1);
        assert(t.drop_last() =~= s.take(i));
        assert(spec_is_digits(t.drop_last()));
        lemma_dec_value_nonneg(s.take(i));
        assert(spec_dec_value(t) == spec_dec_value(s.take(i)) * 10 + s[i] - 48);
    } else {
        assert(s.take(i) =~= s);
    }
}

/// Parse a run of ASCII digits as a decimal number.  Returns `Some`
/// exactly when the input is non-empty, all digits, and the value fits
/// in a u64.
pub fn parse_u64(s: &[u8]) -> (r: Option<u64>)
    ensures
        match r {
            Some(v) => s@.len() > 0 && spec_is_digits(s@) && v == spec_dec_value(s@),
            None => s@.len() == 0 || !spec_is_digits(s@) || spec_dec_value(s@) > u64::MAX,
        },
{
    let n = s.len();
    if n == 0 {
        return None;
    }
    let mut acc: u64 = 0;
    let mut i: usize = 0;
    while i < n
        invariant
            0 <= i <= n,
            n == s@.len(),
            spec_is_digits(s@.take(i as int)),
            acc == spec_dec_value(s@.take(i as int)),
        decreases n - i,
    {
        let b = *vstd::slice::slice_index_get(s, i);
        if b < 48 || b > 57 {
            return None;
        }
        let d = (b - 48) as u64;
        if acc > (u64::MAX - d) / 10 {
            proof {
                let t = s@.take(i as int + 1);
                assert(t.drop_last() =~= s@.take(i as int));
                assert(spec_dec_value(t) == acc * 10 + d);
                assert(spec_dec_value(t) > u64::MAX);
                if spec_is_digits(s@) {
                    lemma_dec_value_prefix_le(s@, i as int + 1);
                }
            }
            return None;
        }
        proof {
            let t = s@.take(i as int + 1);
            assert(t.drop_last() =~= s@.take(i as int));
        }
        acc = acc * 10 + d;
        i = i + 1;
    }
    proof {
        assert(s@.take(n as int) =~= s@);
    }
    Some(acc)
}

/// Formatting then parsing a byte count gives the count back: the digits
/// of `n` are a non-empty digit run whose value is `n`.
pub proof fn lemma_scale_roundtrip(n: u64)
    ensures
        spec_dec_digits(n as nat).len() >= 1,
        spec_is_digits(spec_dec_digits(n as nat)),
        spec_dec_value(spec_dec_digits(n as nat)) == n,
{
    lemma_dec_digits_are_digits(n as nat);
    lemma_dec_digits_value(n as nat);
}

/// A run of `k` ASCII spaces.
pub open spec fn spec_spaces(k: nat) -> Seq<u8> {
    Seq::new(k, |i: int| 32u8)
}

/// `s` right-aligned in a field of width `w`: spaces first, then `s`;
/// wider runs are kept whole.
pub open spec fn spec_pad_left(s: Seq<u8>, w: int) -> Seq<u8> {
    if s.len() >= w {
        s
    } else {
        spec_spaces((w - s.len()) as nat) + s
    }
}

/// `s` left-aligned in a field of width `w`: `s` first, then spaces;
/// wider runs are kept whole.
pub open spec fn spec_pad_right(s: Seq<u8>, w: int) -> Seq<u8> {
    if s.len() >= w {
        s
    } else {
        s + spec_spaces((w - s.len()) as nat)
    }
}

/// Right-align `v` in a field of width `w`.
pub fn pad_left(v: Vec<u8>, w: usize) -> (r: Vec<u8>)
    ensures
        r@ == spec_pad_left(v@, w as int),
{
    if v.len() >= w {
        v
    } else {
        let ghost orig = v@;
        let k = w - v.len();
        let mut r: Vec<u8> = Vec::new();
        let mut i: usize = 0;
        while i < k
            invariant
                0 <= i <= k,
                r@ =~= spec_spaces(i as nat),
            decreases k - i,
        {
            r.push(32);
            proof {
                assert(r@ =~= spec_spaces(i as nat + 1));
            }
            i = i + 1;
        }
        let mut tail = v;
        r.append(&mut tail);
        proof {
            assert(r@ =~= spec_pad_left(orig, w as int));
        }
        r
    }
}

/// Left-align `v` in a field of width `w`.
pub fn pad_right(v: Vec<u8>, w: usize) -> (r: Vec<u8>)
    ensures
        r@ == spec_pad_right(v@, w as int),
{
    let ghost orig = v@;
    let n = v.len();
    if n >= w {
        v
    } else {
        let mut r = v;
        let k = w - n;
        let mut i: usize = 0;
        while i < k
            invariant
                0 <= i <= k,
                r@ =~= orig + spec_spaces(i as nat),
            decreases k - i,
        {
            r.push(32);
            proof {
                assert(r@ =~= orig + spec_spaces(i as nat + 1));
            }
            i = i + 1;
        }
        proof {
            assert(r@ =~= spec_pad_right(orig, w as int));
        }
        r
    }
}

/// The unit letter for the given number of 1024-fold reductions:
/// bytes, kibi, mebi, gibi, tebi, pebi, exbi.
pub open spec fn spec_unit(c: nat) -> u8 {
    if c == 0 {
        66
    } else if c == 1 {
        75
    } else if c == 2 {
        77
    } else if c == 3 {
        71
    } else if c == 4 {
        84
    } else if c == 5 {
        80
    } else {
        69
    }
}

/// The unit letter for the given number of 1024-fold reductions.
pub fn unit(c: u32) -> (r: u8)
    ensures
        r == spec_unit(c as nat),
{
    if c == 0 {
        66
    } else if c == 1 {
        75
    } else if c == 2 {
        77
    } else if c == 3 {
        71
    } else if c == 4 {
        84
    } else if c == 5 {
        80
    } else {
        69
    }
}

/// The human-readable rendering of `n` after `c` reductions: reduce by
/// 1024 while above ten units; below a full unit print up to four digits
/// right-aligned and the unit letter, otherwise one decimal place and the
/// next unit letter.
pub open spec fn spec_human_rec(n: nat, c: nat) -> Seq<u8>
    decreases n,
{
    if n > 10240 {
        spec_human_rec(n / 1024, c + 1)
    } else if n < 1024 {
        spec_pad_left(spec_dec_digits(n), 4).push(spec_unit(c))
    } else {
        seq![32u8] + spec_dec_digits(n / 1024) + seq![46u8] + seq![
            (48 + (n * 10 / 1024) % 10) as u8,
        ] + seq![spec_unit(c + 1)]
    }
}

/// `1024` to the power `c`.
spec fn pow1024(c: nat) -> int
    decreases c,
{
    if c == 0 {
        1
    } else {
        1024 * pow1024((c - 1) as nat)
    }
}

proof fn lemma_pow1024_pos(c: nat)
    ensures
        pow1024(c) >= 1,
    decreases c,
{
    if c > 0 {
        lemma_pow1024_pos((c - 1) as nat);
    }
}

/// Render `num` in the human-readable scale.
pub fn scale_human(num: u64) -> (v: Vec<u8>)
    ensures
        v@ == spec_human_rec(num as nat, 0),
{
    let mut n: u64 = num;
    let mut cnt: u32 = 0;
    proof {
        assert(num as int / 1 == num as int);
    }
    while n > 10240
        invariant
            cnt <= 6,
            n as int == num as int / pow1024(cnt as nat),
            spec_human_rec(num as nat, 0) == spec_human_rec(n as nat, cnt as nat),
        decreases n,
    {
        proof {
            assert(pow1024(0) == 1);
            assert(pow1024(1) == 1024);
            assert(pow1024(2) == 1024 * 1024);
            assert(pow1024(3) == 1024 * 1024 * 1024);
            assert(pow1024(4) == 0x10000000000);
            assert(pow1024(5) == 0x4000000000000);
            assert(pow1024(6) == 0x1000000000000000);
            if cnt == 6 {
                lemma_div_is_ordered(num as int, u64::MAX as int, pow1024(6));
                assert(u64::MAX as int / 0x1000000000000000 == 15);
            }
            lemma_pow1024_pos(cnt as nat);
            lemma_div_denominator(num as int, pow1024(cnt as nat), 1024);
            assert(pow1024(cnt as nat) * 1024 == 1024 * pow1024(cnt as nat)) by (nonlinear_arith);
            assert(pow1024((cnt + 1) as nat) == 1024 * pow1024(cnt as nat));
        }
        n = n / 1024;
        cnt = cnt + 1;
    }
    if n < 1024 {
        let mut v = pad_left(fmt_u64(n), 4);
        v.push(unit(cnt));
        v
    } else {
        let mut v: Vec<u8> = Vec::new();
        v.push(32);
        let mut d = fmt_u64(n / 1024);
        v.append(&mut d);
        v.push(46);
        v.push(48 + ((n * 10 / 1024) % 10) as u8);
        v.push(unit(cnt + 1));
        proof {
            assert(v@ =~= spec_human_rec(n as nat, cnt as nat));
        }
        v
    }
}

/// The bytes of an ASCII character sequence, one byte per character.
pub open spec fn ascii_bytes(s: Seq<char>) -> Seq<u8> {
    Seq::new(s.len(), |i: int| s[i] as u8)
}

/// The characters of an ASCII byte sequence, one character per byte.
pub open spec fn chars_of_bytes(b: Seq<u8>) -> Seq<char> {
    Seq::new(b.len(), |i: int| b[i] as char)
}

/// Whether every byte of `s` is ASCII.
pub open spec fn spec_is_ascii_bytes(s: Seq<u8>) -> bool {
    forall|i: int| 0 <= i < s.len() ==> #[trigger] s[i] < 128
}

/// Append the bytes of an ASCII string.
pub fn append_str(v: &mut Vec<u8>, s: &str)
    requires
        vstd::string::is_ascii(s),
    ensures
        final(v)@ == old(v)@ + ascii_bytes(s@),
{
    let b = s.as_bytes();
    proof {
        vstd::utf8::is_ascii_chars_encode_utf8(s@);
    }
    v.extend_from_slice(b);
    proof {
        assert(v@ =~= old(v)@ + ascii_bytes(s@));
    }
}

/// Relies on `String::from_utf8`: a vector of ASCII bytes decodes to the
/// string of exactly those characters, one per byte.
#[verifier::external_body]
pub fn ascii_to_string(v: Vec<u8>) -> (s: String)
    requires
        spec_is_ascii_bytes(v@),
    ensures
        s@ == chars_of_bytes(v@),
{
    match String::from_utf8(v) {
        Ok(s) => s,
        Err(_) => String::new(),
    }
}

/// Every byte the decimal renderer produces is ASCII.
pub proof fn lemma_dec_digits_ascii(n: nat)
    ensures
        spec_is_ascii_bytes(spec_dec_digits(n)),
{
    lemma_dec_digits_are_digits(n);
}

/// Every byte the human-readable renderer produces is ASCII.
pub proof fn lemma_human_ascii(n: nat, c: nat)
    ensures
        spec_is_ascii_bytes(spec_human_rec(n, c)),
    decreases n,
{
    if n > 10240 {
        lemma_human_ascii(n / 1024, c + 1);
    } else if n < 1024 {
        lemma_dec_digits_ascii(n);
        assert forall|i: int|
            0 <= i < spec_human_rec(n, c).len() implies #[trigger] spec_human_rec(n, c)[i]
            < 128 by {
            let padded = spec_pad_left(spec_dec_digits(n), 4);
            if i < padded.len() {
                if spec_dec_digits(n).len() < 4 && i < 4 - spec_dec_digits(n).len() {
                    assert(padded[i] == 32);
                } else {
                }
            }
        }
    } else {
        lemma_dec_digits_ascii(n / 1024);
        assert forall|i: int|
            0 <= i < spec_human_rec(n, c).len() implies #[trigger] spec_human_rec(n, c)[i]
            < 128 by {
        }
    }
}

/// The rendering of `num` under the given scale, as bytes.
pub open spec fn spec_scale(s: Scale, num: u64) -> Seq<u8> {
    match s {
        Scale::Bytes => spec_dec_digits(num as nat),
        Scale::Human => spec_human_rec(num as nat, 0),
    }
}

impl Scale {
    /// Render a byte count under this scale: the exact decimal digits in
    /// bytes mode, the 1024-scaled form with a unit letter in human mode.
    pub fn scale(&self, num: u64) -> (r: String)
        ensures
            r@ == chars_of_bytes(spec_scale(*self, num)),
    {
        let v: Vec<u8> = match self {
            Scale::Bytes => fmt_u64(num),
            Scale::Human => scale_human(num),
        };
        proof {
            lemma_dec_digits_ascii(num as nat);
            lemma_human_ascii(num as nat, 0);
        }
        ascii_to_string(v)
    }

    /// Render a byte count under this scale, keeping the raw bytes.
    pub fn scale_bytes(&self, num: u64) -> (r: Vec<u8>)
        ensures
            r@ == spec_scale(*self, num),
    {
        match self {
            Scale::Bytes => fmt_u64(num),
            Scale::Human => scale_human(num),
        }
    }
}

/// A `Stat` as unbounded integers, for contracts.
#[verifier::ext_equal]
pub struct StatModel {
    pub disk: int,
    pub uncomp: int,
    pub refd: int,
}

impl StatModel {
    /// Field-wise sum.
    pub open spec fn plus(self, o: StatModel) -> StatModel {
        StatModel { disk: self.disk + o.disk, uncomp: self.uncomp + o.uncomp, refd: self.refd + o.refd }
    }
}

impl Stat {
    /// This statistic as unbounded integers.
    pub open spec fn model(self) -> StatModel {
        StatModel { disk: self.disk as int, uncomp: self.uncomp as int, refd: self.refd as int }
    }
}

/// The aggregator's whole state as a mathematical value: the counters, the
/// per-class and preallocated statistics, and the set of seen extent keys.
#[verifier::ext_equal]
pub struct AggModel {
    pub nfile: int,
    pub ninline: int,
    pub nref: int,
    pub nextent: int,
    pub prealloc: StatModel,
    pub comp: Seq<StatModel>,
    pub seen: Set<u64>,
}

/// The aggregate statistics: file, reference and extent counts, one
/// statistic per compression class, and one for preallocated space.
#[derive(Debug, Clone, Copy, PartialEq, Eq)]
pub struct CompsizeStat {
    pub nfile: u64,
    pub ninline: u64,
    pub nref: u64,
    pub nextent: u64,
    pub prealloc: Stat,
    pub stat: [Stat; 4],
}

/// The state of an aggregate paired with its seen-key set.
pub open spec fn agg_model(cs: CompsizeStat, seen: Set<u64>) -> AggModel {
    AggModel {
        nfile: cs.nfile as int,
        ninline: cs.ninline as int,
        nref: cs.nref as int,
        nextent: cs.nextent as int,
        prealloc: cs.prealloc.model(),
        comp: seq![
            cs.stat@[0].model(),
            cs.stat@[1].model(),
            cs.stat@[2].model(),
            cs.stat@[3].model(),
        ],
        seen,
    }
}

/// The counting rule, one extent at a time.  An inline extent counts all
/// three fields every time; a regular or preallocated reference always
/// counts its referenced bytes, and counts disk and uncompressed bytes
/// only when its key was not seen before.
pub open spec fn spec_insert(m: AggModel, e: ExtentInfo) -> AggModel {
    let ci = e.compression.spec_index();
    match e.kind {
        ExtentType::Inline => AggModel {
            ninline: m.ninline + 1,
            comp: m.comp.update(ci, m.comp[ci].plus(e.stat.model())),
            ..m
        },
        ExtentType::Regular => {
            if m.seen.contains(e.disk_bytenr) {
                AggModel {
                    nref: m.nref + 1,
                    comp: m.comp.update(
                        ci,
                        m.comp[ci].plus(StatModel { disk: 0, uncomp: 0, refd: e.stat.refd as int }),
                    ),
                    ..m
                }
            } else {
                AggModel {
                    nref: m.nref + 1,
                    nextent: m.nextent + 1,
                    seen: m.seen.insert(e.disk_bytenr),
                    comp: m.comp.update(ci, m.comp[ci].plus(e.stat.model())),
                    ..m
                }
            }
        },
        ExtentType::Prealloc => {
            if m.seen.contains(e.disk_bytenr) {
                AggModel {
                    nref: m.nref + 1,
                    prealloc: m.prealloc.plus(
                        StatModel { disk: 0, uncomp: 0, refd: e.stat.refd as int },
                    ),
                    ..m
                }
            } else {
                AggModel {
                    nref: m.nref + 1,
                    nextent: m.nextent + 1,
                    seen: m.seen.insert(e.disk_bytenr),
                    prealloc: m.prealloc.plus(e.stat.model()),
                    ..m
                }
            }
        },
    }
}

/// Whether every counter and statistic of the model fits in a u64.
pub open spec fn spec_bounded(m: AggModel) -> bool {
    &&& m.nfile <= u64::MAX
    &&& m.ninline <= u64::MAX
    &&& m.nref <= u64::MAX
    &&& m.nextent <= u64::MAX
    &&& m.prealloc.disk <= u64::MAX
    &&& m.prealloc.uncomp <= u64::MAX
    &&& m.prealloc.refd <= u64::MAX
    &&& forall|i: int|
        0 <= i < m.comp.len() ==> (#[trigger] m.comp[i]).disk <= u64::MAX && m.comp[i].uncomp
            <= u64::MAX && m.comp[i].refd <= u64::MAX
}

impl Default for CompsizeStat {
    /// The empty aggregate: every counter and statistic zero.
    fn default() -> (r: Self)
        ensures
            r == CompsizeStat::spec_zero(),
    {
        let z = Stat { disk: 0, uncomp: 0, refd: 0 };
        CompsizeStat { nfile: 0, ninline: 0, nref: 0, nextent: 0, prealloc: z, stat: [z, z, z, z] }
    }
}

impl CompsizeStat {
    /// The empty aggregate.
    pub open spec fn spec_zero() -> CompsizeStat {
        CompsizeStat {
            nfile: 0,
            ninline: 0,
            nref: 0,
            nextent: 0,
            prealloc: Stat { disk: 0, uncomp: 0, refd: 0 },
            stat: [
                Stat { disk: 0, uncomp: 0, refd: 0 },
                Stat { disk: 0, uncomp: 0, refd: 0 },
                Stat { disk: 0, uncomp: 0, refd: 0 },
                Stat { disk: 0, uncomp: 0, refd: 0 },
            ],
        }
    }

    /// Number of files processed.
    pub fn nfile(&self) -> (r: u64)
        ensures
            r == self.nfile,
    {
        self.nfile
    }

    /// Mutable access to the file counter.
    pub fn nfile_mut(&mut self) -> (r: &mut u64)
        ensures
            *r == old(self).nfile,
            *final(self) == (CompsizeStat { nfile: *final(r), ..*old(self) }),
    {
        &mut self.nfile
    }

    /// Number of regular and preallocated extent references seen.
    pub fn nref(&self) -> (r: u64)
        ensures
            r == self.nref,
    {
        self.nref
    }

    /// Account one extent reference, deduplicating physical extents
    /// through `extent_map`.  The caller keeps the totals within u64
    /// range; real extent sizes stay far below it.
    pub fn insert(&mut self, extent_map: &mut ExtentMap, extent: ExtentInfo)
        requires
            spec_bounded(spec_insert(agg_model(*old(self), old(extent_map)@), extent)),
        ensures
            agg_model(*final(self), final(extent_map)@) == spec_insert(
                agg_model(*old(self), old(extent_map)@),
                extent,
            ),
    {
        let ghost m0 = agg_model(*old(self), old(extent_map)@);
        let comp = extent.comp();
        let stat = extent.stat();
        let ci = comp.as_usize();
        proof {
            let m1 = spec_insert(m0, extent);
            assert(0 <= ci < 4);
            assert(m0.comp[ci as int] == old(self).stat@[ci as int].model());
            assert(m1.comp[ci as int].disk <= u64::MAX && m1.comp[ci as int].uncomp <= u64::MAX
                && m1.comp[ci as int].refd <= u64::MAX);
            assert(m1.prealloc.disk <= u64::MAX && m1.prealloc.uncomp <= u64::MAX
                && m1.prealloc.refd <= u64::MAX);
        }
        match extent.kind() {
            ExtentType::Inline => {
                self.ninline = self.ninline + 1;
                let mut s = self.stat[ci];
                s.disk = s.disk + stat.disk;
                s.uncomp = s.uncomp + stat.uncomp;
                s.refd = s.refd + stat.refd;
                self.stat[ci] = s;
                proof {
                    assert(agg_model(*self, extent_map@) =~~= spec_insert(m0, extent));
                }
            },
            ExtentType::Regular => {
                self.nref = self.nref + 1;
                let mut s = self.stat[ci];
                if extent_map.insert(extent.key()) {
                    self.nextent = self.nextent + 1;
                    s.disk = s.disk + stat.disk;
                    s.uncomp = s.uncomp + stat.uncomp;
                }
                s.refd = s.refd + stat.refd;
                self.stat[ci] = s;
                proof {
                    assert(agg_model(*self, extent_map@) =~~= spec_insert(m0, extent));
                }
            },
            ExtentType::Prealloc => {
                self.nref = self.nref + 1;
                if extent_map.insert(extent.key()) {
                    self.nextent = self.nextent + 1;
                    self.prealloc.disk = self.prealloc.disk + stat.disk;
                    self.prealloc.uncomp = self.prealloc.uncomp + stat.uncomp;
                }
                self.prealloc.refd = self.prealloc.refd + stat.refd;
                proof {
                    assert(agg_model(*self, extent_map@) =~~= spec_insert(m0, extent));
                }
            },
        }
    }
}

/// Sum of disk bytes over the preallocated bucket and every class.
pub open spec fn spec_total_disk(cs: CompsizeStat) -> int {
    cs.prealloc.disk + cs.stat@[0].disk + cs.stat@[1].disk + cs.stat@[2].disk + cs.stat@[3].disk
}

/// Sum of uncompressed bytes over the preallocated bucket and every class.
pub open spec fn spec_total_uncomp(cs: CompsizeStat) -> int {
    cs.prealloc.uncomp + cs.stat@[0].uncomp + cs.stat@[1].uncomp + cs.stat@[2].uncomp
        + cs.stat@[3].uncomp
}

/// Sum of referenced bytes over the preallocated bucket and every class.
pub open spec fn spec_total_refd(cs: CompsizeStat) -> int {
    cs.prealloc.refd + cs.stat@[0].refd + cs.stat@[1].refd + cs.stat@[2].refd + cs.stat@[3].refd
}

/// The totals fit the arithmetic of the renderer: percentages and sums
/// stay within u64 range.
pub open spec fn spec_renderable(cs: CompsizeStat) -> bool {
    &&& spec_total_disk(cs) * 100 <= u64::MAX
    &&& spec_total_uncomp(cs) <= u64::MAX
    &&& spec_total_refd(cs) <= u64::MAX
}

/// One output row: five fields left-aligned in widths 10, 8, 12, 12 and
/// 12, separated by single spaces, ended by a newline.
pub open spec fn spec_row(ty: Seq<u8>, perc: Seq<u8>, d: Seq<u8>, u: Seq<u8>, r: Seq<u8>) -> Seq<
    u8,
> {
    spec_pad_right(ty, 10) + seq![32u8] + spec_pad_right(perc, 8) + seq![32u8] + spec_pad_right(
        d,
        12,
    ) + seq![32u8] + spec_pad_right(u, 12) + seq![32u8] + spec_pad_right(r, 12) + seq![10u8]
}

/// A percentage cell: `disk * 100 / uncomp`, right-aligned in width 3,
/// followed by a percent sign.
pub open spec fn spec_percent_cell(disk: int, uncomp: int) -> Seq<u8> {
    spec_pad_left(spec_dec_digits((disk * 100 / uncomp) as nat), 3) + seq![37u8]
}

/// The row for one statistic, or nothing when it is empty.
pub open spec fn spec_stat_row(name: Seq<char>, st: Stat, sc: Scale) -> Seq<u8> {
    if st.uncomp == 0 {
        Seq::empty()
    } else {
        spec_row(
            ascii_bytes(name),
            spec_percent_cell(st.disk as int, st.uncomp as int),
            spec_scale(sc, st.disk),
            spec_scale(sc, st.uncomp),
            spec_scale(sc, st.refd),
        )
    }
}

/// The summary line above the table.
pub open spec fn spec_processed_line(cs: CompsizeStat) -> Seq<u8> {
    ascii_bytes("Processed "@) + spec_dec_digits(cs.nfile as nat) + ascii_bytes(" files, "@)
        + spec_dec_digits(cs.nextent as nat) + ascii_bytes(" regular extents ("@)
        + spec_dec_digits(cs.nref as nat) + ascii_bytes(" refs), "@) + spec_dec_digits(
        cs.ninline as nat,
    ) + ascii_bytes(" inline."@) + seq![10u8]
}

/// The whole rendered table: nothing at all when no uncompressed bytes
/// were seen; otherwise the summary line, the column header, the TOTAL
/// row, one row per non-empty compression class, and the preallocated row.
pub open spec fn spec_render(cs: CompsizeStat, sc: Scale) -> Seq<u8> {
    if spec_total_uncomp(cs) == 0 {
        Seq::empty()
    } else {
        spec_processed_line(cs) + spec_row(
            ascii_bytes("Type"@),
            ascii_bytes("Perc"@),
            ascii_bytes("Disk Usage"@),
            ascii_bytes("Uncompressed"@),
            ascii_bytes("Referenced"@),
        ) + spec_row(
            ascii_bytes("TOTAL"@),
            spec_percent_cell(spec_total_disk(cs), spec_total_uncomp(cs)),
            spec_scale(sc, spec_total_disk(cs) as u64),
            spec_scale(sc, spec_total_uncomp(cs) as u64),
            spec_scale(sc, spec_total_refd(cs) as u64),
        ) + spec_stat_row("none"@, cs.stat@[0], sc) + spec_stat_row("zlib"@, cs.stat@[1], sc)
            + spec_stat_row("lzo"@, cs.stat@[2], sc) + spec_stat_row("zstd"@, cs.stat@[3], sc)
            + spec_stat_row("prealloc"@, cs.prealloc, sc)
    }
}

/// The bytes of an ASCII string.
pub fn bytes_of(s: &str) -> (v: Vec<u8>)
    requires
        vstd::string::is_ascii(s),
    ensures
        v@ == ascii_bytes(s@),
{
    let mut v: Vec<u8> = Vec::new();
    append_str(&mut v, s);
    proof {
        assert(v@ =~= ascii_bytes(s@));
    }
    v
}

/// Append one table row from its five cells.
pub fn write_table(
    f: &mut Vec<u8>,
    ty: Vec<u8>,
    percentage: Vec<u8>,
    disk_usage: Vec<u8>,
    uncomp_usage: Vec<u8>,
    refd_usage: Vec<u8>,
)
    ensures
        final(f)@ == old(f)@ + spec_row(ty@, percentage@, disk_usage@, uncomp_usage@, refd_usage@),
{
    let mut c = pad_right(ty, 10);
    f.append(&mut c);
    f.push(32);
    let mut c = pad_right(percentage, 8);
    f.append(&mut c);
    f.push(32);
    let mut c = pad_right(disk_usage, 12);
    f.append(&mut c);
    f.push(32);
    let mut c = pad_right(uncomp_usage, 12);
    f.append(&mut c);
    f.push(32);
    let mut c = pad_right(refd_usage, 12);
    f.append(&mut c);
    f.push(10);
    proof {
        assert(f@ =~= old(f)@ + spec_row(
            ty@,
            percentage@,
            disk_usage@,
            uncomp_usage@,
            refd_usage@,
        ));
    }
}

/// The percentage cell for the given statistic.
fn percent_cell(disk: u64, uncomp: u64) -> (v: Vec<u8>)
    requires
        uncomp != 0,
        disk * 100 <= u64::MAX,
    ensures
        v@ == spec_percent_cell(disk as int, uncomp as int),
{
    let p = disk * 100 / uncomp;
    let mut v = pad_left(fmt_u64(p), 3);
    v.push(37);
    proof {
        assert(v@ =~= spec_percent_cell(disk as int, uncomp as int));
    }
    v
}

/// Append the row for one statistic, skipping empty ones.
fn write_stat_row(f: &mut Vec<u8>, name: &str, st: Stat, sc: Scale)
    requires
        vstd::string::is_ascii(name),
        st.uncomp != 0 ==> st.disk * 100 <= u64::MAX,
    ensures
        final(f)@ == old(f)@ + spec_stat_row(name@, st, sc),
{
    if st.is_empty() {
        proof {
            assert(f@ =~= old(f)@ + spec_stat_row(name@, st, sc));
        }
        return ;
    }
    let perc = percent_cell(st.disk, st.uncomp);
    write_table(
        f,
        bytes_of(name),
        perc,
        sc.scale_bytes(st.disk),
        sc.scale_bytes(st.uncomp),
        sc.scale_bytes(st.refd),
    );
}

impl CompsizeStat {
    /// The stderr note owed when the table would be empty: distinguishes
    /// a crawl that saw no files at all from one that saw only empty or
    /// not-yet-allocated files.
    pub fn empty_diagnostic(&self) -> (r: Option<&'static str>)
        requires
            spec_total_uncomp(*self) <= u64::MAX,
        ensures
            match r {
                Some(s) => spec_total_uncomp(*self) == 0 && (self.nfile == 0 ==> s@
                    == "No Files."@) && (self.nfile != 0 ==> s@
                    == "All empty or still-delalloced files."@),
                None => spec_total_uncomp(*self) != 0,
            },
    {
        let total_uncomp = self.prealloc.uncomp + self.stat[0].uncomp + self.stat[1].uncomp
            + self.stat[2].uncomp + self.stat[3].uncomp;
        if total_uncomp != 0 {
            None
        } else if self.nfile == 0 {
            Some("No Files.")
        } else {
            Some("All empty or still-delalloced files.")
        }
    }

    /// Render the full table under the given scale.  The result is empty
    /// exactly when no uncompressed bytes were seen; the caller then owes
    /// the stderr note of `empty_diagnostic` instead.
    pub fn fmt(&self, scale: Scale) -> (r: String)
        requires
            spec_renderable(*self),
        ensures
            r@ == chars_of_bytes(spec_render(*self, scale)),
    {
        let mut out: Vec<u8> = Vec::new();
        let total_disk = self.prealloc.disk + self.stat[0].disk + self.stat[1].disk
            + self.stat[2].disk + self.stat[3].disk;
        let total_uncomp = self.prealloc.uncomp + self.stat[0].uncomp + self.stat[1].uncomp
            + self.stat[2].uncomp + self.stat[3].uncomp;
        let total_refd = self.prealloc.refd + self.stat[0].refd + self.stat[1].refd
            + self.stat[2].refd + self.stat[3].refd;
        if total_uncomp == 0 {
            proof {
                lemma_render_ascii(*self, scale);
                assert(out@ =~= spec_render(*self, scale));
            }
            return ascii_to_string(out);
        }
        proof {
            reveal_strlit("Processed ");
            reveal_strlit(" files, ");
            reveal_strlit(" regular extents (");
            reveal_strlit(" refs), ");
            reveal_strlit(" inline.");
            reveal_strlit("Type");
            reveal_strlit("Perc");
            reveal_strlit("Disk Usage");
            reveal_strlit("Uncompressed");
            reveal_strlit("Referenced");
            reveal_strlit("TOTAL");
            reveal_strlit("none");
            reveal_strlit("zlib");
            reveal_strlit("lzo");
            reveal_strlit("zstd");
            reveal_strlit("prealloc");
        }
        append_str(&mut out, "Processed ");
        let mut d = fmt_u64(self.nfile);
        out.append(&mut d);
        append_str(&mut out, " files, ");
        let mut d = fmt_u64(self.nextent);
        out.append(&mut d);
        append_str(&mut out, " regular extents (");
        let mut d = fmt_u64(self.nref);
        out.append(&mut d);
        append_str(&mut out, " refs), ");
        let mut d = fmt_u64(self.ninline);
        out.append(&mut d);
        append_str(&mut out, " inline.");
        out.push(10);
        proof {
            assert(out@ =~= spec_processed_line(*self));
        }
        write_table(
            &mut out,
            bytes_of("Type"),
            bytes_of("Perc"),
            bytes_of("Disk Usage"),
            bytes_of("Uncompressed"),
            bytes_of("Referenced"),
        );
        write_table(
            &mut out,
            bytes_of("TOTAL"),
            percent_cell(total_disk, total_uncomp),
            scale.scale_bytes(total_disk),
            scale.scale_bytes(total_uncomp),
            scale.scale_bytes(total_refd),
        );
        write_stat_row(&mut out, "none", self.stat[0], scale);
        write_stat_row(&mut out, "zlib", self.stat[1], scale);
        write_stat_row(&mut out, "lzo", self.stat[2], scale);
        write_stat_row(&mut out, "zstd", self.stat[3], scale);
        write_stat_row(&mut out, "prealloc", self.prealloc, scale);
        proof {
            assert(out@ =~= spec_render(*self, scale));
            lemma_render_ascii(*self, scale);
        }
        ascii_to_string(out)
    }
}

/// ASCII bytes stay ASCII under concatenation.
proof fn lemma_ascii_concat(a: Seq<u8>, b: Seq<u8>)
    requires
        spec_is_ascii_bytes(a),
        spec_is_ascii_bytes(b),
    ensures
        spec_is_ascii_bytes(a + b),
{
    assert forall|i: int| 0 <= i < (a + b).len() implies #[trigger] (a + b)[i] < 128 by {
        if i < a.len() {
            assert((a + b)[i] == a[i]);
        } else {
            assert((a + b)[i] == b[i - a.len()]);
        }
    }
}

/// The bytes of an ASCII character sequence are ASCII.
proof fn lemma_ascii_bytes_ascii(s: Seq<char>)
    requires
        vstd::utf8::is_ascii_chars(s),
    ensures
        spec_is_ascii_bytes(ascii_bytes(s)),
{
    assert forall|i: int| 0 <= i < ascii_bytes(s).len() implies #[trigger] ascii_bytes(s)[i]
        < 128 by {
        assert('\0' <= s[i] <= '\u{7f}');
    }
}

/// Padding keeps bytes ASCII.
proof fn lemma_pad_ascii(s: Seq<u8>, w: int)
    requires
        spec_is_ascii_bytes(s),
    ensures
        spec_is_ascii_bytes(spec_pad_left(s, w)),
        spec_is_ascii_bytes(spec_pad_right(s, w)),
{
    if s.len() < w {
        assert(spec_is_ascii_bytes(spec_spaces((w - s.len()) as nat)));
        lemma_ascii_concat(spec_spaces((w - s.len()) as nat), s);
        lemma_ascii_concat(s, spec_spaces((w - s.len()) as nat));
    }
}

/// A table row of ASCII cells is ASCII.
proof fn lemma_row_ascii(ty: Seq<u8>, perc: Seq<u8>, d: Seq<u8>, u: Seq<u8>, r: Seq<u8>)
    requires
        spec_is_ascii_bytes(ty),
        spec_is_ascii_bytes(perc),
        spec_is_ascii_bytes(d),
        spec_is_ascii_bytes(u),
        spec_is_ascii_bytes(r),
    ensures
        spec_is_ascii_bytes(spec_row(ty, perc, d, u, r)),
{
    lemma_pad_ascii(ty, 10);
    lemma_pad_ascii(perc, 8);
    lemma_pad_ascii(d, 12);
    lemma_pad_ascii(u, 12);
    lemma_pad_ascii(r, 12);
    lemma_ascii_concat(spec_pad_right(ty, 10), seq![32u8]);
    lemma_ascii_concat(spec_pad_right(ty, 10) + seq![32u8], spec_pad_right(perc, 8));
    lemma_ascii_concat(
        spec_pad_right(ty, 10) + seq![32u8] + spec_pad_right(perc, 8),
        seq![32u8],
    );
    lemma_ascii_concat(
        spec_pad_right(ty, 10) + seq![32u8] + spec_pad_right(perc, 8) + seq![32u8],
        spec_pad_right(d, 12),
    );
    lemma_ascii_concat(
        spec_pad_right(ty, 10) + seq![32u8] + spec_pad_right(perc, 8) + seq![32u8]
            + spec_pad_right(d, 12),
        seq![32u8],
    );
    lemma_ascii_concat(
        spec_pad_right(ty, 10) + seq![32u8] + spec_pad_right(perc, 8) + seq![32u8]
            + spec_pad_right(d, 12) + seq![32u8],
        spec_pad_right(u, 12),
    );
    lemma_ascii_concat(
        spec_pad_right(ty, 10) + seq![32u8] + spec_pad_right(perc, 8) + seq![32u8]
            + spec_pad_right(d, 12) + seq![32u8] + spec_pad_right(u, 12),
        seq![32u8],
    );
    lemma_ascii_concat(
        spec_pad_right(ty, 10) + seq![32u8] + spec_pad_right(perc, 8) + seq![32u8]
            + spec_pad_right(d, 12) + seq![32u8] + spec_pad_right(u, 12) + seq![32u8],
        spec_pad_right(r, 12),
    );
    lemma_ascii_concat(
        spec_pad_right(ty, 10) + seq![32u8] + spec_pad_right(perc, 8) + seq![32u8]
            + spec_pad_right(d, 12) + seq![32u8] + spec_pad_right(u, 12) + seq![32u8]
            + spec_pad_right(r, 12),
        seq![10u8],
    );
}

/// A percentage cell is ASCII.
proof fn lemma_percent_ascii(disk: int, uncomp: int)
    ensures
        spec_is_ascii_bytes(spec_percent_cell(disk, uncomp)),
{
    lemma_dec_digits_ascii((disk * 100 / uncomp) as nat);
    lemma_pad_ascii(spec_dec_digits((disk * 100 / uncomp) as nat), 3);
    lemma_ascii_concat(
        spec_pad_left(spec_dec_digits((disk * 100 / uncomp) as nat), 3),
        seq![37u8],
    );
}

/// A scaled number is ASCII.
proof fn lemma_scale_ascii(sc: Scale, n: u64)
    ensures
        spec_is_ascii_bytes(spec_scale(sc, n)),
{
    lemma_dec_digits_ascii(n as nat);
    lemma_human_ascii(n as nat, 0);
}

/// A statistic row is ASCII.
proof fn lemma_stat_row_ascii(name: Seq<char>, st: Stat, sc: Scale)
    requires
        vstd::utf8::is_ascii_chars(name),
    ensures
        spec_is_ascii_bytes(spec_stat_row(name, st, sc)),
{
    if st.uncomp != 0 {
        lemma_ascii_bytes_ascii(name);
        lemma_percent_ascii(st.disk as int, st.uncomp as int);
        lemma_scale_ascii(sc, st.disk);
        lemma_scale_ascii(sc, st.uncomp);
        lemma_scale_ascii(sc, st.refd);
        lemma_row_ascii(
            ascii_bytes(name),
            spec_percent_cell(st.disk as int, st.uncomp as int),
            spec_scale(sc, st.disk),
            spec_scale(sc, st.uncomp),
            spec_scale(sc, st.refd),
        );
    }
}

/// Everything the renderer emits is ASCII.
proof fn lemma_render_ascii(cs: CompsizeStat, sc: Scale)
    ensures
        spec_is_ascii_bytes(spec_render(cs, sc)),
{
    if spec_total_uncomp(cs) != 0 {
        reveal_strlit("Processed ");
        reveal_strlit(" files, ");
        reveal_strlit(" regular extents (");
        reveal_strlit(" refs), ");
        reveal_strlit(" inline.");
        reveal_strlit("Type");
        reveal_strlit("Perc");
        reveal_strlit("Disk Usage");
        reveal_strlit("Uncompressed");
        reveal_strlit("Referenced");
        reveal_strlit("TOTAL");
        reveal_strlit("none");
        reveal_strlit("zlib");
        reveal_strlit("lzo");
        reveal_strlit("zstd");
        reveal_strlit("prealloc");
        lemma_ascii_bytes_ascii("Processed "@);
        lemma_ascii_bytes_ascii(" files, "@);
        lemma_ascii_bytes_ascii(" regular extents ("@);
        lemma_ascii_bytes_ascii(" refs), "@);
        lemma_ascii_bytes_ascii(" inline."@);
        lemma_ascii_bytes_ascii("Type"@);
        lemma_ascii_bytes_ascii("Perc"@);
        lemma_ascii_bytes_ascii("Disk Usage"@);
        lemma_ascii_bytes_ascii("Uncompressed"@);
        lemma_ascii_bytes_ascii("Referenced"@);
        lemma_ascii_bytes_ascii("TOTAL"@);
        lemma_dec_digits_ascii(cs.nfile as nat);
        lemma_dec_digits_ascii(cs.nextent as nat);
        lemma_dec_digits_ascii(cs.nref as nat);
        lemma_dec_digits_ascii(cs.ninline as nat);
        let pl = spec_processed_line(cs);
        lemma_ascii_concat(ascii_bytes("Processed "@), spec_dec_digits(cs.nfile as nat));
        lemma_ascii_concat(
            ascii_bytes("Processed "@) + spec_dec_digits(cs.nfile as nat),
            ascii_bytes(" files, "@),
        );
        lemma_ascii_concat(
            ascii_bytes("Processed "@) + spec_dec_digits(cs.nfile as nat) + ascii_bytes(
                " files, "@,
            ),
            spec_dec_digits(cs.nextent as nat),
        );
        lemma_ascii_concat(
            ascii_bytes("Processed "@) + spec_dec_digits(cs.nfile as nat) + ascii_bytes(
                " files, "@,
            ) + spec_dec_digits(cs.nextent as nat),
            ascii_bytes(" regular extents ("@),
        );
        lemma_ascii_concat(
            ascii_bytes("Processed "@) + spec_dec_digits(cs.nfile as nat) + ascii_bytes(
                " files, "@,
            ) + spec_dec_digits(cs.nextent as nat) + ascii_bytes(" regular extents ("@),
            spec_dec_digits(cs.nref as nat),
        );
        lemma_ascii_concat(
            ascii_bytes("Processed "@) + spec_dec_digits(cs.nfile as nat) + ascii_bytes(
                " files, "@,
            ) + spec_dec_digits(cs.nextent as nat) + ascii_bytes(" regular extents ("@)
                + spec_dec_digits(cs.nref as nat),
            ascii_bytes(" refs), "@),
        );
        lemma_ascii_concat(
            ascii_bytes("Processed "@) + spec_dec_digits(cs.nfile as nat) + ascii_bytes(
                " files, "@,
            ) + spec_dec_digits(cs.nextent as nat) + ascii_bytes(" regular extents ("@)
                + spec_dec_digits(cs.nref as nat) + ascii_bytes(" refs), "@),
            spec_dec_digits(cs.ninline as nat),
        );
        lemma_ascii_concat(
            ascii_bytes("Processed "@) + spec_dec_digits(cs.nfile as nat) + ascii_bytes(
                " files, "@,
            ) + spec_dec_digits(cs.nextent as nat) + ascii_bytes(" regular extents ("@)
                + spec_dec_digits(cs.nref as nat) + ascii_bytes(" refs), "@) + spec_dec_digits(
                cs.ninline as nat,
            ),
            ascii_bytes(" inline."@),
        );
        lemma_ascii_concat(
            ascii_bytes("Processed "@) + spec_dec_digits(cs.nfile as nat) + ascii_bytes(
                " files, "@,
            ) + spec_dec_digits(cs.nextent as nat) + ascii_bytes(" regular extents ("@)
                + spec_dec_digits(cs.nref as nat) + ascii_bytes(" refs), "@) + spec_dec_digits(
                cs.ninline as nat,
            ) + ascii_bytes(" inline."@),
            seq![10u8],
        );
        assert(spec_is_ascii_bytes(pl));
        lemma_ascii_bytes_ascii("Type"@);
        lemma_row_ascii(
            ascii_bytes("Type"@),
            ascii_bytes("Perc"@),
            ascii_bytes("Disk Usage"@),
            ascii_bytes("Uncompressed"@),
            ascii_bytes("Referenced"@),
        );
        lemma_percent_ascii(spec_total_disk(cs), spec_total_uncomp(cs));
        lemma_scale_ascii(sc, spec_total_disk(cs) as u64);
        lemma_scale_ascii(sc, spec_total_uncomp(cs) as u64);
        lemma_scale_ascii(sc, spec_total_refd(cs) as u64);
        lemma_row_ascii(
            ascii_bytes("TOTAL"@),
            spec_percent_cell(spec_total_disk(cs), spec_total_uncomp(cs)),
            spec_scale(sc, spec_total_disk(cs) as u64),
            spec_scale(sc, spec_total_uncomp(cs) as u64),
            spec_scale(sc, spec_total_refd(cs) as u64),
        );
        lemma_stat_row_ascii("none"@, cs.stat@[0], sc);
        lemma_stat_row_ascii("zlib"@, cs.stat@[1], sc);
        lemma_stat_row_ascii("lzo"@, cs.stat@[2], sc);
        lemma_stat_row_ascii("zstd"@, cs.stat@[3], sc);
        lemma_stat_row_ascii("prealloc"@, cs.prealloc, sc);
        let hdr = spec_row(
            ascii_bytes("Type"@),
            ascii_bytes("Perc"@),
            ascii_bytes("Disk Usage"@),
            ascii_bytes("Uncompressed"@),
            ascii_bytes("Referenced"@),
        );
        let tot = spec_row(
            ascii_bytes("TOTAL"@),
            spec_percent_cell(spec_total_disk(cs), spec_total_uncomp(cs)),
            spec_scale(sc, spec_total_disk(cs) as u64),
            spec_scale(sc, spec_total_uncomp(cs) as u64),
            spec_scale(sc, spec_total_refd(cs) as u64),
        );
        lemma_ascii_concat(pl, hdr);
        lemma_ascii_concat(pl + hdr, tot);
        lemma_ascii_concat(pl + hdr + tot, spec_stat_row("none"@, cs.stat@[0], sc));
        lemma_ascii_concat(
            pl + hdr + tot + spec_stat_row("none"@, cs.stat@[0], sc),
            spec_stat_row("zlib"@, cs.stat@[1], sc),
        );
        lemma_ascii_concat(
            pl + hdr + tot + spec_stat_row("none"@, cs.stat@[0], sc) + spec_stat_row(
                "zlib"@,
                cs.stat@[1],
                sc,
            ),
            spec_stat_row("lzo"@, cs.stat@[2], sc),
        );
        lemma_ascii_concat(
            pl + hdr + tot + spec_stat_row("none"@, cs.stat@[0], sc) + spec_stat_row(
                "zlib"@,
                cs.stat@[1],
                sc,
            ) + spec_stat_row("lzo"@, cs.stat@[2], sc),
            spec_stat_row("zstd"@, cs.stat@[3], sc),
        );
        lemma_ascii_concat(
            pl + hdr + tot + spec_stat_row("none"@, cs.stat@[0], sc) + spec_stat_row(
                "zlib"@,
                cs.stat@[1],
                sc,
            ) + spec_stat_row("lzo"@, cs.stat@[2], sc) + spec_stat_row("zstd"@, cs.stat@[3], sc),
            spec_stat_row("prealloc"@, cs.prealloc, sc),
        );
    }
}

} // verus!
