//! The statistics that glibc's `malloc_info` reports, and the figures drawn from them.
use crate::stats::{metric_views, Metric, MetricView};
use vstd::prelude::*;

verus! {

/// Types of arena space.
#[derive(Debug, PartialEq, Eq, Clone, Copy)]
pub enum AspaceType {
    Total,
    Mprotect,
    Subheaps,
    Other,
}

/// Arena space information.
#[derive(Debug, PartialEq, Eq, Clone, Copy)]
pub struct Aspace {
    pub kind: AspaceType,
    pub size: usize,
}

/// Types of system memory.
#[derive(Debug, PartialEq, Eq, Clone, Copy)]
pub enum SystemType {
    Current,
    Max,
    Other,
}

/// System memory information.
#[derive(Debug, PartialEq, Eq, Clone, Copy)]
pub struct System {
    pub kind: SystemType,
    pub size: usize,
}

/// Types of total memory.
#[derive(Debug, PartialEq, Eq, Clone, Copy)]
pub enum TotalType {
    Fast,
    Rest,
    Mmap,
    Other,
}

/// Total memory information.
#[derive(Debug, PartialEq, Eq, Clone, Copy)]
pub struct Total {
    pub kind: TotalType,
    pub count: usize,
    pub size: usize,
}

/// Size information for an arena or the whole heap.
#[derive(Debug, PartialEq, Eq, Clone, Copy)]
pub enum Size {
    Size { from: usize, to: usize, total: usize, count: usize },
    Unsorted { from: usize, to: usize, total: usize, count: usize },
}

/// Wrapper type for sizes, which may be a list of entries.
#[derive(Debug, PartialEq, Eq, Clone)]
pub struct Sizes {
    pub sizes: Option<Vec<Size>>,
}

/// Arena-specific heap information.
#[derive(Debug, PartialEq, Eq, Clone)]
pub struct Heap {
    /// Arena number
    pub nr: usize,
    /// Arena sizes
    pub sizes: Option<Sizes>,
    pub total: Vec<Total>,
    pub system: Vec<System>,
    pub aspace: Vec<Aspace>,
}

/// All the statistics that `malloc_info` reports.
#[derive(Debug, PartialEq, Eq, Clone)]
pub struct Malloc {
    pub version: String,
    pub heaps: Vec<Heap>,
    pub total: Vec<Total>,
    pub system: Vec<System>,
    pub aspace: Vec<Aspace>,
}

/// The parsed output of `malloc_info`.
#[derive(Debug, PartialEq, Eq, Clone)]
pub struct MallocInfo(pub Malloc);

/// The size of the first system entry of type `kind`, or zero when there is none.
pub open spec fn first_system_size(s: Seq<System>, kind: SystemType) -> u64
    decreases s.len(),
{
    if s.len() == 0 {
        0
    } else if s[0].kind == kind {
        s[0].size as u64
    } else {
        first_system_size(s.drop_first(), kind)
    }
}

/// The sum of `size * count` over the totals.
pub open spec fn totals_product_sum(t: Seq<Total>) -> int
    decreases t.len(),
{
    if t.len() == 0 {
        0
    } else {
        totals_product_sum(t.drop_last()) + t.last().size * t.last().count
    }
}

/// Law of the malloc total: no entry totals zero, and an entry added last
/// adds its `size * count`, whatever its kind; so a single entry totals its
/// `size * count`.
pub proof fn law_total_counts_every_entry(t: Seq<Total>, e: Total)
    ensures
        totals_product_sum(Seq::empty()) == 0,
        totals_product_sum(t.push(e)) == totals_product_sum(t) + e.size * e.count,
        totals_product_sum(seq![e]) == e.size * e.count,
{
    assert(t.push(e).drop_last() =~= t);
    let one = Seq::<Total>::empty().push(e);
    assert(seq![e] =~= one);
    assert(one.drop_last() =~= Seq::<Total>::empty());
    assert(totals_product_sum(Seq::<Total>::empty()) == 0);
    assert(one.last() == e);
    assert(totals_product_sum(one) == totals_product_sum(one.drop_last()) + e.size * e.count);
}

/// Whether every `size * count` fits a `usize` and their sum fits a `u64`.
pub open spec fn totals_product_fits(t: Seq<Total>) -> bool {
    &&& forall|i: int| 0 <= i < t.len() ==> #[trigger] t[i].size * t[i].count <= usize::MAX
    &&& forall|k: int| 0 <= k <= t.len() ==> #[trigger] totals_product_sum(t.take(k)) <= u64::MAX
}

/// `a + b`, or the largest `u64` when that overflows.
pub open spec fn sat_add(a: int, b: int) -> int {
    if a + b > u64::MAX {
        u64::MAX as int
    } else {
        a + b
    }
}

/// The sizes of the totals whose type `pick` selects, added up with saturation.
pub open spec fn picked_size_sum(t: Seq<Total>, pick: spec_fn(TotalType) -> bool) -> int
    decreases t.len(),
{
    if t.len() == 0 {
        0
    } else if pick(t.last().kind) {
        sat_add(picked_size_sum(t.drop_last(), pick), t.last().size as int)
    } else {
        picked_size_sum(t.drop_last(), pick)
    }
}

pub open spec fn is_free_total(k: TotalType) -> bool {
    k == TotalType::Fast || k == TotalType::Rest
}

pub open spec fn is_mmap_total(k: TotalType) -> bool {
    k == TotalType::Mmap
}

fn first_system(s: &Vec<System>, kind: SystemType) -> (r: u64)
    ensures
        r == first_system_size(s@, kind),
{
    let mut i: usize = 0;
    assert(s@.skip(0) =~= s@);
    while i < s.len()
        invariant
            i <= s.len(),
            first_system_size(s@, kind) == first_system_size(s@.skip(i as int), kind),
        decreases s.len() - i,
    {
        assert(s@.skip(i as int)[0] == s@[i as int]);
        assert(s@.skip(i as int).drop_first() =~= s@.skip(i + 1));
        let same = match (s[i].kind, kind) {
            (SystemType::Current, SystemType::Current) => true,
            (SystemType::Max, SystemType::Max) => true,
            (SystemType::Other, SystemType::Other) => true,
            _ => false,
        };
        if same {
            return s[i].size as u64;
        }
        i = i + 1;
    }
    0
}

fn picked_sum(t: &Vec<Total>, fast_rest: bool) -> (r: u64)
    ensures
        r == picked_size_sum(
            t@,
            if fast_rest {
                |k: TotalType| is_free_total(k)
            } else {
                |k: TotalType| is_mmap_total(k)
            },
        ),
{
    let ghost pick = if fast_rest {
        |k: TotalType| is_free_total(k)
    } else {
        |k: TotalType| is_mmap_total(k)
    };
    let mut sum: u64 = 0;
    let mut i: usize = 0;
    assert(t@.take(0) =~= Seq::<Total>::empty());
    while i < t.len()
        invariant
            i <= t.len(),
            pick == (if fast_rest {
                |k: TotalType| is_free_total(k)
            } else {
                |k: TotalType| is_mmap_total(k)
            }),
            sum == picked_size_sum(t@.take(i as int), pick),
        decreases t.len() - i,
    {
        assert(t@.take(i + 1).drop_last() =~= t@.take(i as int));
        let picked = match t[i].kind {
            TotalType::Fast => fast_rest,
            TotalType::Rest => fast_rest,
            TotalType::Mmap => !fast_rest,
            TotalType::Other => false,
        };
        if picked {
            sum = sum.saturating_add(t[i].size as u64);
        }
        i = i + 1;
    }
    assert(t@.take(t.len() as int) =~= t@);
    sum
}

impl MallocInfo {
    /// The largest size the system entries report, or zero.
    pub fn system_max(&self) -> (r: u64)
        ensures
            r == first_system_size(self.0.system@, SystemType::Max),
    {
        first_system(&self.0.system, SystemType::Max)
    }

    /// The current size the system entries report, or zero.
    pub fn system_current(&self) -> (r: u64)
        ensures
            r == first_system_size(self.0.system@, SystemType::Current),
    {
        first_system(&self.0.system, SystemType::Current)
    }

    /// The sum of `size * count` over the top-level totals.
    pub fn total(&self) -> (r: u64)
        requires
            totals_product_fits(self.0.total@),
        ensures
            r == totals_product_sum(self.0.total@),
    {
        let t = &self.0.total;
        let mut sum: u64 = 0;
        let mut i: usize = 0;
        assert(t@.take(0) =~= Seq::<Total>::empty());
        while i < t.len()
            invariant
                i <= t.len(),
                t == &self.0.total,
                totals_product_fits(t@),
                sum == totals_product_sum(t@.take(i as int)),
            decreases t.len() - i,
        {
            assert(t@.take(i + 1).drop_last() =~= t@.take(i as int));
            assert(t@.take(i + 1).last() == t@[i as int]);
            let p = t[i].size * t[i].count;
            assert(totals_product_sum(t@.take(i + 1)) <= u64::MAX);
            sum = sum + p as u64;
            i = i + 1;
        }
        assert(t@.take(t.len() as int) =~= t@);
        sum
    }

    /// The number of heaps (arenas).
    pub fn heaps(&self) -> (r: u64)
        ensures
            r == self.0.heaps.len(),
    {
        self.0.heaps.len() as u64
    }

    /// Free bytes: the sizes of the top-level `fast` and `rest` totals, added
    /// up with saturation.
    pub fn free_bytes(&self) -> (r: u64)
        ensures
            r == picked_size_sum(self.0.total@, |k: TotalType| is_free_total(k)),
    {
        picked_sum(&self.0.total, true)
    }

    /// Bytes in mmapped chunks: the sizes of the top-level `mmap` totals,
    /// added up with saturation.
    pub fn mmap_bytes(&self) -> (r: u64)
        ensures
            r == picked_size_sum(self.0.total@, |k: TotalType| is_mmap_total(k)),
    {
        picked_sum(&self.0.total, false)
    }

    /// Bytes in use: current system bytes plus mmapped bytes, less free bytes,
    /// with saturation at both ends.
    pub fn in_use_bytes(&self) -> (r: u64)
        ensures
            r == crate::stats::sat_sub(
                sat_add(
                    first_system_size(self.0.system@, SystemType::Current) as int,
                    picked_size_sum(self.0.total@, |k: TotalType| is_mmap_total(k)),
                ),
                picked_size_sum(self.0.total@, |k: TotalType| is_free_total(k)),
            ),
    {
        self.system_current().saturating_add(self.mmap_bytes()).saturating_sub(self.free_bytes())
    }
}

} // verus!

verus! {

/// The gauges that the malloc collector exports for `s`, in order: the
/// peak and current system bytes and the number of heaps.
pub open spec fn malloc_metric_spec(s: MallocInfo) -> Seq<MetricView> {
    seq![
        MetricView { name: "malloc_max"@, help: "total peak memory"@, value: first_system_size(s.0.system@, SystemType::Max), counter: false },
        MetricView { name: "malloc_current"@, help: "total current memory"@, value: first_system_size(s.0.system@, SystemType::Current), counter: false },
        MetricView { name: "malloc_heaps"@, help: "current heaps used"@, value: s.0.heaps.len() as u64, counter: false },
    ]
}

/// The gauges that the malloc collector exports for `s`, in order.
pub fn malloc_metrics(s: &MallocInfo) -> (r: Vec<Metric>)
    ensures
        metric_views(r@) == malloc_metric_spec(*s),
{
    let mut r: Vec<Metric> = Vec::new();
    r.push(Metric::gauge("malloc_max", "total peak memory", s.system_max()));
    r.push(Metric::gauge("malloc_current", "total current memory", s.system_current()));
    r.push(Metric::gauge("malloc_heaps", "current heaps used", s.heaps()));
    assert(metric_views(r@) =~= malloc_metric_spec(*s));
    r
}

} // verus!
