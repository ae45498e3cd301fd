//! Process residency from `/proc/self/smaps_rollup`.
use crate::stats::procmaps::{from_str, smap_views, smaps_spec, Parsed, SMapView};
use crate::stats::{metric_views, Metric, MetricView};
use vstd::prelude::*;

verus! {

/// The counters of the `smaps_rollup` entry of a process, in bytes.
#[derive(Debug, Default, PartialEq, Eq, Clone, Copy)]
pub struct ProcessStats {
    pub size: u64,
    pub rss: u64,
    pub pss: u64,
    pub pss_dirty: u64,
    pub shared_clean: u64,
    pub shared_dirty: u64,
    pub private_clean: u64,
    pub private_dirty: u64,
    pub referenced: u64,
    pub anonymous: u64,
    pub lazy_free: u64,
    pub anon_huge_pages: u64,
    pub shmem_huge_pages: u64,
    pub shmem_pmd_mapped: u64,
    pub file_pmd_mapped: u64,
    pub shared_hugetlb: u64,
    pub private_hugetlb: u64,
    pub swap: u64,
    pub swap_pss: u64,
    pub locked: u64,
}

/// The process counters that an `smaps` entry holds.
pub open spec fn process_stats_of(e: SMapView) -> ProcessStats {
    ProcessStats {
        size: e.size,
        rss: e.rss,
        pss: e.pss,
        pss_dirty: e.pss_dirty,
        shared_clean: e.shared_clean,
        shared_dirty: e.shared_dirty,
        private_clean: e.private_clean,
        private_dirty: e.private_dirty,
        referenced: e.referenced,
        anonymous: e.anonymous,
        lazy_free: e.lazy_free,
        anon_huge_pages: e.anon_huge_pages,
        shmem_huge_pages: e.shmem_huge_pages,
        shmem_pmd_mapped: e.shmem_pmd_mapped,
        file_pmd_mapped: e.file_pmd_mapped,
        shared_hugetlb: e.shared_hugetlb,
        private_hugetlb: e.private_hugetlb,
        swap: e.swap,
        swap_pss: e.swap_pss,
        locked: e.locked,
    }
}

/// Why a rollup text was refused.
#[derive(Debug, PartialEq, Eq, Clone, Copy)]
pub enum RollupError {
    /// The text held this many entries, not exactly one.
    EntryCount(usize),
}

/// Reads the text of `/proc/self/smaps_rollup`: it must hold exactly one entry,
/// whose counters are returned.
pub fn parse_rollup(input: &str) -> (r: Result<ProcessStats, RollupError>)
    requires
        smaps_spec(input@) is Done,
    ensures
        match smaps_spec(input@) {
            Parsed::Done(es) => if es.len() == 1 {
                r == Ok::<ProcessStats, RollupError>(process_stats_of(es[0]))
            } else {
                r == Err::<ProcessStats, RollupError>(RollupError::EntryCount(es.len() as usize))
            },
            _ => false,
        },
{
    let smaps = match from_str(input) {
        Some(v) => v,
        None => {
            return Err(RollupError::EntryCount(0));
        },
    };
    assert(smap_views(smaps@).len() == smaps@.len());
    if smaps.len() != 1 {
        return Err(RollupError::EntryCount(smaps.len()));
    }
    let smap = &smaps[0];
    assert(smap_views(smaps@)[0] == smap@);
    ProcessStats {
        size: smap.size,
        rss: smap.rss,
        pss: smap.pss,
        pss_dirty: smap.pss_dirty,
        shared_clean: smap.shared_clean,
        shared_dirty: smap.shared_dirty,
        private_clean: smap.private_clean,
        private_dirty: smap.private_dirty,
        referenced: smap.referenced,
        anonymous: smap.anonymous,
        lazy_free: smap.lazy_free,
        anon_huge_pages: smap.anon_huge_pages,
        shmem_huge_pages: smap.shmem_huge_pages,
        shmem_pmd_mapped: smap.shmem_pmd_mapped,
        file_pmd_mapped: smap.file_pmd_mapped,
        shared_hugetlb: smap.shared_hugetlb,
        private_hugetlb: smap.private_hugetlb,
        swap: smap.swap,
        swap_pss: smap.swap_pss,
        locked: smap.locked,
    }.into_ok()
}

impl ProcessStats {
    fn into_ok(self) -> (r: Result<ProcessStats, RollupError>)
        ensures
            r == Ok::<ProcessStats, RollupError>(self),
    {
        Ok(self)
    }
}

/// The gauges that the process collector exports for `s`, in order.
pub open spec fn process_metric_spec(s: ProcessStats) -> Seq<MetricView> {
    seq![
        MetricView { name: "process_size"@, help: "size memory usage"@, value: s.size, counter: false },
        MetricView { name: "process_rss"@, help: "rss memory usage"@, value: s.rss, counter: false },
        MetricView { name: "process_pss"@, help: "pss memory usage"@, value: s.pss, counter: false },
        MetricView { name: "process_pss_dirty"@, help: "pss_dirty memory usage"@, value: s.pss_dirty, counter: false },
        MetricView { name: "process_shared_clean"@, help: "shared_clean memory usage"@, value: s.shared_clean, counter: false },
        MetricView { name: "process_shared_dirty"@, help: "shared_dirty memory usage"@, value: s.shared_dirty, counter: false },
        MetricView { name: "process_private_clean"@, help: "private_clean memory usage"@, value: s.private_clean, counter: false },
        MetricView { name: "process_private_dirty"@, help: "private_dirty memory usage"@, value: s.private_dirty, counter: false },
        MetricView { name: "process_referenced"@, help: "referenced memory usage"@, value: s.referenced, counter: false },
        MetricView { name: "process_anonymous"@, help: "anonymous memory usage"@, value: s.anonymous, counter: false },
        MetricView { name: "process_lazy_free"@, help: "lazy free memory usage"@, value: s.lazy_free, counter: false },
        MetricView { name: "process_anon_huge_pages"@, help: "anonymous huge pages usage"@, value: s.anon_huge_pages, counter: false },
        MetricView { name: "process_shmem_huge_pages"@, help: "shared memory huge pages usage"@, value: s.shmem_huge_pages, counter: false },
        MetricView { name: "process_shmem_pmd_mapped"@, help: "shared memory pmd mapped usage"@, value: s.shmem_pmd_mapped, counter: false },
        MetricView { name: "process_file_pmd_mapped"@, help: "file pmd mapped usage"@, value: s.file_pmd_mapped, counter: false },
        MetricView { name: "process_shared_hugetlb"@, help: "shared hugetlb usage"@, value: s.shared_hugetlb, counter: false },
        MetricView { name: "process_private_hugetlb"@, help: "private hugetlb usage"@, value: s.private_hugetlb, counter: false },
        MetricView { name: "process_swap"@, help: "process swap usage"@, value: s.swap, counter: false },
        MetricView { name: "process_swap_pss"@, help: "process proportional swap usage"@, value: s.swap_pss, counter: false },
        MetricView { name: "process_locked"@, help: "process locked memory usage"@, value: s.locked, counter: false },
    ]
}

/// The gauges that the process collector exports for `s`, in order.
pub fn process_metrics(s: &ProcessStats) -> (r: Vec<Metric>)
    ensures
        metric_views(r@) == process_metric_spec(*s),
{
    let mut r: Vec<Metric> = Vec::new();
    r.push(Metric::gauge("process_size", "size memory usage", s.size));
    r.push(Metric::gauge("process_rss", "rss memory usage", s.rss));
    r.push(Metric::gauge("process_pss", "pss memory usage", s.pss));
    r.push(Metric::gauge("process_pss_dirty", "pss_dirty memory usage", s.pss_dirty));
    r.push(Metric::gauge("process_shared_clean", "shared_clean memory usage", s.shared_clean));
    r.push(Metric::gauge("process_shared_dirty", "shared_dirty memory usage", s.shared_dirty));
    r.push(Metric::gauge("process_private_clean", "private_clean memory usage", s.private_clean));
    r.push(Metric::gauge("process_private_dirty", "private_dirty memory usage", s.private_dirty));
    r.push(Metric::gauge("process_referenced", "referenced memory usage", s.referenced));
    r.push(Metric::gauge("process_anonymous", "anonymous memory usage", s.anonymous));
    r.push(Metric::gauge("process_lazy_free", "lazy free memory usage", s.lazy_free));
    r.push(Metric::gauge("process_anon_huge_pages", "anonymous huge pages usage", s.anon_huge_pages));
    r.push(Metric::gauge("process_shmem_huge_pages", "shared memory huge pages usage", s.shmem_huge_pages));
    r.push(Metric::gauge("process_shmem_pmd_mapped", "shared memory pmd mapped usage", s.shmem_pmd_mapped));
    r.push(Metric::gauge("process_file_pmd_mapped", "file pmd mapped usage", s.file_pmd_mapped));
    r.push(Metric::gauge("process_shared_hugetlb", "shared hugetlb usage", s.shared_hugetlb));
    r.push(Metric::gauge("process_private_hugetlb", "private hugetlb usage", s.private_hugetlb));
    r.push(Metric::gauge("process_swap", "process swap usage", s.swap));
    r.push(Metric::gauge("process_swap_pss", "process proportional swap usage", s.swap_pss));
    r.push(Metric::gauge("process_locked", "process locked memory usage", s.locked));
    assert(metric_views(r@) =~= process_metric_spec(*s));
    r
}

} // verus!
