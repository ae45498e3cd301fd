//! Which allocator serves the process, and the normalized view of its statistics.
use crate::stats::malloc::{
    first_system_size, is_free_total, is_mmap_total, picked_size_sum, sat_add, MallocInfo,
    SystemType, TotalType,
};
use crate::stats::{metric_views, sat_sub, Metric, MetricView};
use vstd::prelude::*;
use vstd::std_specs::convert::FromSpecImpl;
use vstd::string::StringExecFns;

verus! {

/// The allocator that serves the process.
#[derive(Clone, Copy, Debug, PartialEq, Eq, Structural)]
pub enum AllocatorKind {
    Undeclared,
    Glibc,
    Jemalloc,
    Mimalloc,
}

/// The byte that stands for `kind` in the process-wide cell.
pub open spec fn kind_code(kind: AllocatorKind) -> u8 {
    match kind {
        AllocatorKind::Undeclared => 0,
        AllocatorKind::Glibc => 1,
        AllocatorKind::Jemalloc => 2,
        AllocatorKind::Mimalloc => 3,
    }
}

/// The kind that a byte of the process-wide cell stands for; unknown bytes stand for `Undeclared`.
pub open spec fn kind_of_code(code: u8) -> AllocatorKind {
    if code == 1 {
        AllocatorKind::Glibc
    } else if code == 2 {
        AllocatorKind::Jemalloc
    } else if code == 3 {
        AllocatorKind::Mimalloc
    } else {
        AllocatorKind::Undeclared
    }
}

/// The name under which `kind` is reported.
pub open spec fn kind_name(kind: AllocatorKind) -> Seq<char> {
    match kind {
        AllocatorKind::Undeclared => "undeclared"@,
        AllocatorKind::Glibc => "glibc"@,
        AllocatorKind::Jemalloc => "jemalloc"@,
        AllocatorKind::Mimalloc => "mimalloc"@,
    }
}

impl AllocatorKind {
    pub fn as_u8(self) -> (r: u8)
        ensures
            r == kind_code(self),
    {
        match self {
            AllocatorKind::Undeclared => 0,
            AllocatorKind::Glibc => 1,
            AllocatorKind::Jemalloc => 2,
            AllocatorKind::Mimalloc => 3,
        }
    }

    pub fn from_u8(value: u8) -> (r: AllocatorKind)
        ensures
            r == kind_of_code(value),
    {
        match value {
            1 => AllocatorKind::Glibc,
            2 => AllocatorKind::Jemalloc,
            3 => AllocatorKind::Mimalloc,
            _ => AllocatorKind::Undeclared,
        }
    }

    /// The name under which this kind is reported.
    pub fn as_str(self) -> (r: &'static str)
        ensures
            r@ == kind_name(self),
    {
        match self {
            AllocatorKind::Undeclared => "undeclared",
            AllocatorKind::Glibc => "glibc",
            AllocatorKind::Jemalloc => "jemalloc",
            AllocatorKind::Mimalloc => "mimalloc",
        }
    }
}

/// Decoding the code of a kind gives the kind back.
pub proof fn lemma_kind_code_roundtrip(kind: AllocatorKind)
    ensures
        kind_of_code(kind_code(kind)) == kind,
{
}

/// The cell that holds the declared allocator kind, as a byte.
#[derive(Debug)]
pub struct ConfiguredAllocator {
    code: u8,
}

impl ConfiguredAllocator {
    pub closed spec fn code(&self) -> u8 {
        self.code
    }

    /// A cell in which no kind is declared.
    pub fn new() -> (r: ConfiguredAllocator)
        ensures
            r.code() == kind_code(AllocatorKind::Undeclared),
    {
        ConfiguredAllocator { code: 0 }
    }
}

/// Declares `kind` as the process's allocator.
pub fn configure(cell: &mut ConfiguredAllocator, kind: AllocatorKind)
    ensures
        final(cell).code() == kind_code(kind),
{
    cell.code = kind.as_u8();
}

/// The declared allocator kind.
pub fn configured(cell: &ConfiguredAllocator) -> (r: AllocatorKind)
    ensures
        r == kind_of_code(cell.code()),
{
    AllocatorKind::from_u8(cell.code)
}

/// What a declaration of an allocator kind is read back as: the kind itself.
pub proof fn lemma_configured_reads_back(cell: ConfiguredAllocator, kind: AllocatorKind)
    requires
        cell.code() == kind_code(kind),
    ensures
        kind_of_code(cell.code()) == kind,
{
}

/// Why allocator statistics or collection are unavailable.
#[derive(Debug, PartialEq, Eq, Clone)]
pub enum AllocatorError {
    /// No allocator kind was declared.
    Undeclared,
    /// jemalloc support is not built into this library.
    JemallocNotCompiled,
    /// mimalloc support is not built into this library.
    MimallocNotCompiled,
    /// mimalloc reported no statistics.
    MimallocStatsUnavailable,
    /// Reading glibc's statistics failed, with this message.
    Glibc(String),
}

/// The message of each error.
pub open spec fn error_message(e: AllocatorError) -> Seq<char> {
    match e {
        AllocatorError::Undeclared => "allocator kind is undeclared; add declare_allocator_kind!(...) next to #[global_allocator]"@,
        AllocatorError::JemallocNotCompiled => "jemalloc support is not compiled in; enable the `allocator-jemalloc` feature"@,
        AllocatorError::MimallocNotCompiled => "mimalloc support is not compiled in; enable the `allocator-mimalloc` feature"@,
        AllocatorError::MimallocStatsUnavailable => "mimalloc statistics are unavailable"@,
        AllocatorError::Glibc(m) => m@,
    }
}

impl AllocatorError {
    /// The error's message.
    pub fn message(&self) -> (r: String)
        ensures
            r@ == error_message(*self),
    {
        match self {
            AllocatorError::Undeclared => String::from_str(
                "allocator kind is undeclared; add declare_allocator_kind!(...) next to #[global_allocator]",
            ),
            AllocatorError::JemallocNotCompiled => String::from_str(
                "jemalloc support is not compiled in; enable the `allocator-jemalloc` feature",
            ),
            AllocatorError::MimallocNotCompiled => String::from_str(
                "mimalloc support is not compiled in; enable the `allocator-mimalloc` feature",
            ),
            AllocatorError::MimallocStatsUnavailable => String::from_str(
                "mimalloc statistics are unavailable",
            ),
            AllocatorError::Glibc(m) => m.clone(),
        }
    }
}

/// The work that collecting free memory back from the allocator takes.
#[derive(Debug, PartialEq, Eq, Clone, Copy)]
pub enum CollectAction {
    /// Return free glibc heap memory to the system (`malloc_trim(0)`).
    TrimGlibc,
}

/// What collecting free memory from an allocator of kind `kind` takes, or why
/// it cannot be done in this build.
pub open spec fn collect_spec(kind: AllocatorKind) -> Result<CollectAction, AllocatorError> {
    match kind {
        AllocatorKind::Undeclared => Err(AllocatorError::Undeclared),
        AllocatorKind::Glibc => Ok(CollectAction::TrimGlibc),
        AllocatorKind::Jemalloc => Err(AllocatorError::JemallocNotCompiled),
        AllocatorKind::Mimalloc => Err(AllocatorError::MimallocNotCompiled),
    }
}

/// Collecting free memory from mimalloc: unavailable, since mimalloc support
/// is not built into this library.
pub fn mimalloc_collect(force: bool) -> (r: Result<(), AllocatorError>)
    ensures
        r == Err::<(), AllocatorError>(AllocatorError::MimallocNotCompiled),
{
    Err(AllocatorError::MimallocNotCompiled)
}

/// What collecting free memory from an allocator of kind `kind` takes.
pub fn collect_for(kind: AllocatorKind) -> (r: Result<CollectAction, AllocatorError>)
    ensures
        r == collect_spec(kind),
{
    match kind {
        AllocatorKind::Undeclared => Err(AllocatorError::Undeclared),
        AllocatorKind::Glibc => Ok(CollectAction::TrimGlibc),
        AllocatorKind::Jemalloc => Err(AllocatorError::JemallocNotCompiled),
        AllocatorKind::Mimalloc => match mimalloc_collect(true) {
            Ok(()) => Err(AllocatorError::MimallocNotCompiled),
            Err(e) => Err(e),
        },
    }
}

/// What collecting free memory from the declared allocator takes.
pub fn collect(cell: &ConfiguredAllocator) -> (r: Result<CollectAction, AllocatorError>)
    ensures
        r == collect_spec(kind_of_code(cell.code())),
{
    collect_for(configured(cell))
}

/// Cross-allocator figures; a figure is absent where the allocator does not provide it.
#[derive(Clone, Copy, Debug, Default, PartialEq, Eq)]
pub struct AllocatorComparisonStats {
    pub allocated_bytes: Option<u64>,
    pub active_bytes: Option<u64>,
    pub resident_bytes: Option<u64>,
    pub mapped_bytes: Option<u64>,
    pub retained_bytes: Option<u64>,
    pub metadata_bytes: Option<u64>,
    pub committed_bytes: Option<u64>,
    pub allocator_structures: Option<u64>,
}

/// glibc's figures.
#[derive(Clone, Copy, Debug, PartialEq, Eq)]
pub struct GlibcStats {
    pub system_max: u64,
    pub system_current: u64,
    pub free_bytes: u64,
    pub mmap_current: u64,
    pub in_use_bytes: u64,
    pub heaps: u64,
}

/// jemalloc's figures.
#[derive(Clone, Copy, Debug, PartialEq, Eq)]
pub struct JemallocStats {
    pub allocated: u64,
    pub active: u64,
    pub metadata: u64,
    pub resident: u64,
    pub mapped: u64,
    pub retained: u64,
    pub background_thread: bool,
}

/// mimalloc's figures.
#[derive(Clone, Copy, Debug, PartialEq, Eq)]
pub struct MimallocStats {
    pub version: u32,
    pub allocated_current: u64,
    pub allocated_peak: u64,
    pub reserved_current: u64,
    pub reserved_peak: u64,
    pub committed_current: u64,
    pub committed_peak: u64,
    pub reset_current: u64,
    pub purged_current: u64,
    pub page_committed_current: u64,
    pub pages_current: u64,
    pub pages_abandoned_current: u64,
    pub segments_current: u64,
    pub segments_abandoned_current: u64,
    pub threads_current: u64,
    pub requested_current: u64,
    pub requested_peak: u64,
    pub process_rss_current: u64,
    pub process_rss_peak: u64,
    pub process_commit_current: u64,
    pub process_commit_peak: u64,
    pub page_faults: u64,
    pub arenas: u64,
}

/// The allocator-specific figures.
#[derive(Clone, Copy, Debug, PartialEq, Eq)]
pub enum AllocatorSpecificDetails {
    Glibc(GlibcStats),
    Jemalloc(JemallocStats),
    Mimalloc(MimallocStats),
}

/// glibc's figures as drawn from `malloc_info`.
pub open spec fn glibc_stats_spec(info: MallocInfo) -> GlibcStats {
    let current = first_system_size(info.0.system@, SystemType::Current);
    let free = picked_size_sum(info.0.total@, |k: TotalType| is_free_total(k));
    let mmap = picked_size_sum(info.0.total@, |k: TotalType| is_mmap_total(k));
    GlibcStats {
        system_max: first_system_size(info.0.system@, SystemType::Max),
        system_current: current,
        free_bytes: free as u64,
        mmap_current: mmap as u64,
        in_use_bytes: sat_sub(sat_add(current as int, mmap), free) as u64,
        heaps: info.0.heaps.len() as u64,
    }
}

impl From<&MallocInfo> for GlibcStats {
    fn from(info: &MallocInfo) -> (r: Self) {
        GlibcStats {
            system_max: info.system_max(),
            system_current: info.system_current(),
            free_bytes: info.free_bytes(),
            mmap_current: info.mmap_bytes(),
            in_use_bytes: info.in_use_bytes(),
            heaps: info.heaps(),
        }
    }
}

impl FromSpecImpl<&MallocInfo> for GlibcStats {
    open spec fn obeys_from_spec() -> bool {
        true
    }

    open spec fn from_spec(info: &MallocInfo) -> GlibcStats {
        glibc_stats_spec(*info)
    }
}

/// The cross-allocator figures of glibc: allocated bytes are those in use,
/// mapped bytes the current system bytes plus mmapped bytes (saturating),
/// retained bytes the free ones, structures the heaps.
pub open spec fn glibc_comparison(s: GlibcStats) -> AllocatorComparisonStats {
    AllocatorComparisonStats {
        allocated_bytes: Some(s.in_use_bytes),
        active_bytes: None,
        resident_bytes: None,
        mapped_bytes: Some(sat_add(s.system_current as int, s.mmap_current as int) as u64),
        retained_bytes: Some(s.free_bytes),
        metadata_bytes: None,
        committed_bytes: None,
        allocator_structures: Some(s.heaps),
    }
}

impl From<&GlibcStats> for AllocatorComparisonStats {
    fn from(s: &GlibcStats) -> (r: Self) {
        AllocatorComparisonStats {
            allocated_bytes: Some(s.in_use_bytes),
            active_bytes: None,
            resident_bytes: None,
            mapped_bytes: Some(s.system_current.saturating_add(s.mmap_current)),
            retained_bytes: Some(s.free_bytes),
            metadata_bytes: None,
            committed_bytes: None,
            allocator_structures: Some(s.heaps),
        }
    }
}

impl FromSpecImpl<&GlibcStats> for AllocatorComparisonStats {
    open spec fn obeys_from_spec() -> bool {
        true
    }

    open spec fn from_spec(s: &GlibcStats) -> AllocatorComparisonStats {
        glibc_comparison(*s)
    }
}

/// The cross-allocator figures of jemalloc: all but committed bytes and structures.
pub open spec fn jemalloc_comparison(s: JemallocStats) -> AllocatorComparisonStats {
    AllocatorComparisonStats {
        allocated_bytes: Some(s.allocated),
        active_bytes: Some(s.active),
        resident_bytes: Some(s.resident),
        mapped_bytes: Some(s.mapped),
        retained_bytes: Some(s.retained),
        metadata_bytes: Some(s.metadata),
        committed_bytes: None,
        allocator_structures: None,
    }
}

impl From<&JemallocStats> for AllocatorComparisonStats {
    fn from(s: &JemallocStats) -> (r: Self) {
        AllocatorComparisonStats {
            allocated_bytes: Some(s.allocated),
            active_bytes: Some(s.active),
            resident_bytes: Some(s.resident),
            mapped_bytes: Some(s.mapped),
            retained_bytes: Some(s.retained),
            metadata_bytes: Some(s.metadata),
            committed_bytes: None,
            allocator_structures: None,
        }
    }
}

impl FromSpecImpl<&JemallocStats> for AllocatorComparisonStats {
    open spec fn obeys_from_spec() -> bool {
        true
    }

    open spec fn from_spec(s: &JemallocStats) -> AllocatorComparisonStats {
        jemalloc_comparison(*s)
    }
}

/// The cross-allocator figures of mimalloc: allocated, resident (process RSS),
/// mapped (reserved) and committed bytes, and the arenas.
pub open spec fn mimalloc_comparison(s: MimallocStats) -> AllocatorComparisonStats {
    AllocatorComparisonStats {
        allocated_bytes: Some(s.allocated_current),
        active_bytes: None,
        resident_bytes: Some(s.process_rss_current),
        mapped_bytes: Some(s.reserved_current),
        retained_bytes: None,
        metadata_bytes: None,
        committed_bytes: Some(s.committed_current),
        allocator_structures: Some(s.arenas),
    }
}

impl From<&MimallocStats> for AllocatorComparisonStats {
    fn from(s: &MimallocStats) -> (r: Self) {
        AllocatorComparisonStats {
            allocated_bytes: Some(s.allocated_current),
            active_bytes: None,
            resident_bytes: Some(s.process_rss_current),
            mapped_bytes: Some(s.reserved_current),
            retained_bytes: None,
            metadata_bytes: None,
            committed_bytes: Some(s.committed_current),
            allocator_structures: Some(s.arenas),
        }
    }
}

impl FromSpecImpl<&MimallocStats> for AllocatorComparisonStats {
    open spec fn obeys_from_spec() -> bool {
        true
    }

    open spec fn from_spec(s: &MimallocStats) -> AllocatorComparisonStats {
        mimalloc_comparison(*s)
    }
}

/// A figure that was read, or why it could not be.
#[derive(Clone, Debug, PartialEq, Eq)]
pub struct Probe<T> {
    pub value: Option<T>,
    pub error: Option<String>,
}

/// A probe with its error text taken by its characters.
pub ghost struct ProbeView<T> {
    pub value: Option<T>,
    pub error: Option<Seq<char>>,
}

impl<T> View for Probe<T> {
    type V = ProbeView<T>;

    open spec fn view(&self) -> ProbeView<T> {
        ProbeView {
            value: self.value,
            error: match self.error {
                Some(e) => Some(e@),
                None => None,
            },
        }
    }
}

impl<T> Probe<T> {
    /// A figure that was read.
    pub fn ok(value: T) -> (r: Probe<T>)
        ensures
            r@ == (ProbeView { value: Some(value), error: None::<Seq<char>> }),
    {
        Probe { value: Some(value), error: None }
    }

    /// A figure that could not be read, and why.
    pub fn err(message: String) -> (r: Probe<T>)
        ensures
            r@ == (ProbeView { value: None::<T>, error: Some(message@) }),
    {
        Probe { value: None, error: Some(message) }
    }
}

/// The allocator's identity and figures.
#[derive(Clone, Debug, PartialEq, Eq)]
pub struct AllocatorSnapshot {
    pub kind: AllocatorKind,
    pub comparable: Probe<AllocatorComparisonStats>,
    pub specific: Probe<AllocatorSpecificDetails>,
}

/// A snapshot with its probes taken by their views.
pub ghost struct AllocatorSnapshotView {
    pub kind: AllocatorKind,
    pub comparable: ProbeView<AllocatorComparisonStats>,
    pub specific: ProbeView<AllocatorSpecificDetails>,
}

impl View for AllocatorSnapshot {
    type V = AllocatorSnapshotView;

    open spec fn view(&self) -> AllocatorSnapshotView {
        AllocatorSnapshotView { kind: self.kind, comparable: self.comparable@, specific: self.specific@ }
    }
}

/// The snapshot for `kind` from the outcome of reading its figures: both
/// probes hold the figures, or both hold the error's message.
pub open spec fn backend_snapshot_spec(
    kind: AllocatorKind,
    result: Result<(AllocatorComparisonStats, AllocatorSpecificDetails), AllocatorError>,
) -> AllocatorSnapshotView {
    match result {
        Ok((c, d)) => AllocatorSnapshotView {
            kind,
            comparable: ProbeView { value: Some(c), error: None },
            specific: ProbeView { value: Some(d), error: None },
        },
        Err(e) => AllocatorSnapshotView {
            kind,
            comparable: ProbeView { value: None, error: Some(error_message(e)) },
            specific: ProbeView { value: None, error: Some(error_message(e)) },
        },
    }
}

/// The snapshot for `kind` from the outcome of reading its figures.
pub fn backend_snapshot(
    kind: AllocatorKind,
    result: Result<(AllocatorComparisonStats, AllocatorSpecificDetails), AllocatorError>,
) -> (r: AllocatorSnapshot)
    ensures
        r@ == backend_snapshot_spec(kind, result),
{
    match result {
        Ok((comparable, specific)) => AllocatorSnapshot {
            kind,
            comparable: Probe::ok(comparable),
            specific: Probe::ok(specific),
        },
        Err(error) => {
            let message = error.message();
            AllocatorSnapshot {
                kind,
                comparable: Probe::err(message.clone()),
                specific: Probe::err(message),
            }
        },
    }
}

/// The outcome of reading glibc's figures from the outcome of `malloc_info`
/// (an error carries its message).
pub open spec fn glibc_snapshot_spec(info: Result<MallocInfo, String>) -> Result<GlibcStats, AllocatorError> {
    match info {
        Ok(i) => Ok(glibc_stats_spec(i)),
        Err(m) => Err(AllocatorError::Glibc(m)),
    }
}

/// glibc's figures from the outcome of `malloc_info`.
pub fn glibc_snapshot(info: Result<MallocInfo, String>) -> (r: Result<GlibcStats, AllocatorError>)
    ensures
        r == glibc_snapshot_spec(info),
{
    match info {
        Ok(i) => Ok(GlibcStats::from(&i)),
        Err(m) => Err(AllocatorError::Glibc(m)),
    }
}

/// The snapshot of an allocator of kind `kind`. For glibc the figures come
/// from `glibc_info`, the outcome of `malloc_info`, which is consulted for no
/// other kind; jemalloc and mimalloc support is not built into this library.
pub open spec fn snapshot_spec(kind: AllocatorKind, glibc_info: Result<MallocInfo, String>) -> AllocatorSnapshotView {
    match kind {
        AllocatorKind::Undeclared => backend_snapshot_spec(kind, Err(AllocatorError::Undeclared)),
        AllocatorKind::Glibc => backend_snapshot_spec(
            kind,
            match glibc_snapshot_spec(glibc_info) {
                Ok(s) => Ok((glibc_comparison(s), AllocatorSpecificDetails::Glibc(s))),
                Err(e) => Err(e),
            },
        ),
        AllocatorKind::Jemalloc => backend_snapshot_spec(kind, Err(AllocatorError::JemallocNotCompiled)),
        AllocatorKind::Mimalloc => backend_snapshot_spec(kind, Err(AllocatorError::MimallocNotCompiled)),
    }
}

/// jemalloc's figures: unavailable, since jemalloc support is not built in.
pub fn jemalloc_snapshot_pair() -> (r: Result<(AllocatorComparisonStats, AllocatorSpecificDetails), AllocatorError>)
    ensures
        r == Err::<(AllocatorComparisonStats, AllocatorSpecificDetails), AllocatorError>(AllocatorError::JemallocNotCompiled),
{
    Err(AllocatorError::JemallocNotCompiled)
}

/// mimalloc's figures: unavailable, since mimalloc support is not built in.
pub fn mimalloc_snapshot_pair() -> (r: Result<(AllocatorComparisonStats, AllocatorSpecificDetails), AllocatorError>)
    ensures
        r == Err::<(AllocatorComparisonStats, AllocatorSpecificDetails), AllocatorError>(AllocatorError::MimallocNotCompiled),
{
    Err(AllocatorError::MimallocNotCompiled)
}

/// The snapshot of an allocator of kind `kind`.
pub fn snapshot_for(kind: AllocatorKind, glibc_info: Result<MallocInfo, String>) -> (r: AllocatorSnapshot)
    ensures
        r@ == snapshot_spec(kind, glibc_info),
{
    match kind {
        AllocatorKind::Undeclared => backend_snapshot(kind, Err(AllocatorError::Undeclared)),
        AllocatorKind::Glibc => {
            let result = match glibc_snapshot(glibc_info) {
                Ok(stats) => Ok((AllocatorComparisonStats::from(&stats), AllocatorSpecificDetails::Glibc(stats))),
                Err(e) => Err(e),
            };
            backend_snapshot(kind, result)
        },
        AllocatorKind::Jemalloc => backend_snapshot(kind, jemalloc_snapshot_pair()),
        AllocatorKind::Mimalloc => backend_snapshot(kind, mimalloc_snapshot_pair()),
    }
}

/// The snapshot of the declared allocator.
pub fn snapshot(cell: &ConfiguredAllocator, glibc_info: Result<MallocInfo, String>) -> (r: AllocatorSnapshot)
    ensures
        r@ == snapshot_spec(kind_of_code(cell.code()), glibc_info),
{
    snapshot_for(configured(cell), glibc_info)
}

/// The gauge that says whether an allocator kind was declared: 1 when it was, else 0.
pub fn configured_metric(kind: AllocatorKind) -> (r: Metric)
    ensures
        r@ == configured_view(kind),
{
    let value: u64 = match kind {
        AllocatorKind::Undeclared => 0,
        _ => 1,
    };
    Metric::gauge("allocator_configured", "whether allocator kind was explicitly declared for this process", value)
}

/// The gauge for a figure, if the figure is present.
pub open spec fn optional_gauge(v: Option<u64>, name: Seq<char>, help: Seq<char>) -> Seq<MetricView> {
    match v {
        Some(x) => seq![MetricView { name, help, value: x, counter: false }],
        None => seq![],
    }
}

/// Number of cross-allocator figures.
pub const COMPARABLE_FIELDS: usize = 8;

/// Cross-allocator figure `f` of `c`, in declaration order.
pub open spec fn comparable_field(c: AllocatorComparisonStats, f: int) -> Option<u64> {
    if f == 0 {
        c.allocated_bytes
    } else if f == 1 {
        c.active_bytes
    } else if f == 2 {
        c.resident_bytes
    } else if f == 3 {
        c.mapped_bytes
    } else if f == 4 {
        c.retained_bytes
    } else if f == 5 {
        c.metadata_bytes
    } else if f == 6 {
        c.committed_bytes
    } else {
        c.allocator_structures
    }
}

/// The name of the gauge for cross-allocator figure `f`.
pub open spec fn comparable_field_name(f: int) -> Seq<char> {
    if f == 0 {
        "allocator_allocated_bytes"@
    } else if f == 1 {
        "allocator_active_bytes"@
    } else if f == 2 {
        "allocator_resident_bytes"@
    } else if f == 3 {
        "allocator_mapped_bytes"@
    } else if f == 4 {
        "allocator_retained_bytes"@
    } else if f == 5 {
        "allocator_metadata_bytes"@
    } else if f == 6 {
        "allocator_committed_bytes"@
    } else {
        "allocator_structures"@
    }
}

/// The help text of the gauge for cross-allocator figure `f`.
pub open spec fn comparable_field_help(f: int) -> Seq<char> {
    if f == 0 {
        "bytes allocated according to the current allocator"@
    } else if f == 1 {
        "bytes currently active according to the current allocator"@
    } else if f == 2 {
        "resident bytes attributed to the current allocator"@
    } else if f == 3 {
        "bytes mapped or reserved by the current allocator"@
    } else if f == 4 {
        "bytes retained but not currently active according to the current allocator"@
    } else if f == 5 {
        "bytes used for allocator metadata"@
    } else if f == 6 {
        "bytes committed by the current allocator"@
    } else {
        "allocator structures such as heaps or arenas"@
    }
}

/// The gauges for the present figures among the first `n` cross-allocator
/// figures of `c`, in order.
pub open spec fn comparable_gauges(c: AllocatorComparisonStats, n: int) -> Seq<MetricView>
    decreases n,
{
    if n <= 0 {
        seq![]
    } else {
        comparable_gauges(c, n - 1) + optional_gauge(
            comparable_field(c, n - 1),
            comparable_field_name(n - 1),
            comparable_field_help(n - 1),
        )
    }
}

/// The gauges for the present cross-allocator figures, in order.
pub open spec fn comparable_metric_spec(c: AllocatorComparisonStats) -> Seq<MetricView> {
    comparable_gauges(c, COMPARABLE_FIELDS as int)
}

/// The gauge `allocator_configured` for `kind`.
pub open spec fn configured_view(kind: AllocatorKind) -> MetricView {
    MetricView {
        name: "allocator_configured"@,
        help: "whether allocator kind was explicitly declared for this process"@,
        value: if kind == AllocatorKind::Undeclared { 0 } else { 1 },
        counter: false,
    }
}

/// The gauge for cross-allocator figure `f` with value `v`.
pub open spec fn field_gauge(f: int, v: u64) -> MetricView {
    MetricView {
        name: comparable_field_name(f),
        help: comparable_field_help(f),
        value: v,
        counter: false,
    }
}

/// Whether `m` is the gauge of a present figure among the first `n`
/// cross-allocator figures of `c`.
pub open spec fn gauge_of_present_field(c: AllocatorComparisonStats, n: int, m: MetricView) -> bool {
    exists|f: int|
        0 <= f < n && comparable_field(c, f) is Some && comparable_field(c, f)->0 == m.value
            && #[trigger] field_gauge(f, m.value) == m
}

proof fn lemma_comparable_gauges(c: AllocatorComparisonStats, n: int)
    requires
        0 <= n <= COMPARABLE_FIELDS,
    ensures
        forall|j: int|
            0 <= j < comparable_gauges(c, n).len() ==> gauge_of_present_field(
                c,
                n,
                #[trigger] comparable_gauges(c, n)[j],
            ),
        forall|f: int|
            0 <= f < n && comparable_field(c, f) is Some ==> comparable_gauges(c, n).contains(
                #[trigger] field_gauge(f, comparable_field(c, f)->0),
            ),
    decreases n,
{
    if n > 0 {
        lemma_comparable_gauges(c, n - 1);
        let prev = comparable_gauges(c, n - 1);
        let cur = comparable_gauges(c, n);
        let last = optional_gauge(
            comparable_field(c, n - 1),
            comparable_field_name(n - 1),
            comparable_field_help(n - 1),
        );
        assert(cur == prev + last);
        assert forall|j: int| 0 <= j < cur.len() implies gauge_of_present_field(
            c,
            n,
            #[trigger] cur[j],
        ) by {
            if j < prev.len() {
                assert(cur[j] == prev[j]);
                assert(gauge_of_present_field(c, n - 1, prev[j]));
                let f = choose|f: int|
                    0 <= f < n - 1 && comparable_field(c, f) is Some && comparable_field(c, f)->0
                        == prev[j].value && #[trigger] field_gauge(f, prev[j].value) == prev[j];
                assert(field_gauge(f, cur[j].value) == cur[j]);
            } else {
                assert(cur[j] == last[j - prev.len()]);
                assert(field_gauge(n - 1, cur[j].value) == cur[j]);
            }
        }
        assert forall|f: int| 0 <= f < n && comparable_field(c, f) is Some implies cur.contains(
            #[trigger] field_gauge(f, comparable_field(c, f)->0),
        ) by {
            let g = field_gauge(f, comparable_field(c, f)->0);
            if f < n - 1 {
                assert(prev.contains(g));
                let j = choose|j: int| 0 <= j < prev.len() && prev[j] == g;
                assert(cur[j] == prev[j]);
            } else {
                assert(cur[prev.len() as int] == last[0]);
            }
        }
    }
}

/// The gauge names tell the cross-allocator figures apart, and none is
/// `allocator_configured`.
proof fn lemma_field_names_distinct(f: int, g: int)
    requires
        0 <= f < COMPARABLE_FIELDS,
        0 <= g < COMPARABLE_FIELDS,
    ensures
        f != g ==> comparable_field_name(f) != comparable_field_name(g),
        comparable_field_name(f) != "allocator_configured"@,
{
    reveal_strlit("allocator_allocated_bytes");
    reveal_strlit("allocator_active_bytes");
    reveal_strlit("allocator_resident_bytes");
    reveal_strlit("allocator_mapped_bytes");
    reveal_strlit("allocator_retained_bytes");
    reveal_strlit("allocator_metadata_bytes");
    reveal_strlit("allocator_committed_bytes");
    reveal_strlit("allocator_structures");
    reveal_strlit("allocator_configured");
    let a = comparable_field_name(f);
    let b = comparable_field_name(g);
    let k = "allocator_configured"@;
    assert(a.len() >= 20 && b.len() >= 20);
    if a == b {
        assert(a.len() == b.len() && a[10] == b[10] && a[12] == b[12]);
    }
    if a == k {
        assert(a.len() == k.len() && a[10] == k[10] && a[12] == k[12]);
    }
}

/// Law of the allocator collector: it exports `allocator_configured`, 1
/// exactly when an allocator kind was declared; and for each
/// cross-allocator figure `f`, a gauge named for `f` appears exactly when
/// the figures could be read and `f` is present among them, and every such
/// gauge holds `f`'s value: a missing figure is never exported, as zero or
/// otherwise.
pub proof fn law_allocator_metrics_export_present_figures(
    kind: AllocatorKind,
    comparable: Option<AllocatorComparisonStats>,
    f: int,
)
    requires
        0 <= f < COMPARABLE_FIELDS,
    ensures
        allocator_metric_spec(kind, comparable)[0].name == "allocator_configured"@,
        allocator_metric_spec(kind, comparable)[0].value == (if kind == AllocatorKind::Undeclared {
            0u64
        } else {
            1u64
        }),
        (exists|j: int|
            0 <= j < allocator_metric_spec(kind, comparable).len()
                && #[trigger] allocator_metric_spec(kind, comparable)[j].name
                == comparable_field_name(f)) <==> (comparable matches Some(c) && comparable_field(
            c,
            f,
        ) is Some),
        forall|j: int|
            0 <= j < allocator_metric_spec(kind, comparable).len()
                && #[trigger] allocator_metric_spec(kind, comparable)[j].name
                == comparable_field_name(f) ==> (comparable matches Some(c) && comparable_field(c, f)
                == Some(allocator_metric_spec(kind, comparable)[j].value)),
{
    let m = allocator_metric_spec(kind, comparable);
    lemma_field_names_distinct(f, f);
    match comparable {
        None => {
            assert(m.len() == 1);
        },
        Some(c) => {
            let g = comparable_metric_spec(c);
            lemma_comparable_gauges(c, COMPARABLE_FIELDS as int);
            assert(m == seq![configured_view(kind)] + g);
            assert forall|j: int| 0 <= j < m.len() && #[trigger] m[j].name == comparable_field_name(f)
                implies comparable_field(c, f) == Some(m[j].value) by {
                assert(j != 0);
                assert(m[j] == g[j - 1]);
                assert(gauge_of_present_field(c, COMPARABLE_FIELDS as int, g[j - 1]));
                let f2 = choose|f2: int|
                    0 <= f2 < COMPARABLE_FIELDS && comparable_field(c, f2) is Some && comparable_field(
                        c,
                        f2,
                    )->0 == g[j - 1].value && #[trigger] field_gauge(f2, g[j - 1].value) == g[j - 1];
                lemma_field_names_distinct(f, f2);
            }
            if comparable_field(c, f) is Some {
                assert(g.contains(field_gauge(f, comparable_field(c, f)->0)));
                let j = choose|j: int| 0 <= j < g.len() && g[j] == field_gauge(f, comparable_field(c, f)->0);
                assert(m[j + 1] == g[j]);
                assert(m[j + 1].name == comparable_field_name(f));
            }
        },
    }
}

/// The gauges that the allocator collector exports besides the identity
/// label: `allocator_configured`, then, when the cross-allocator figures
/// could be read, a gauge for each figure present.
pub open spec fn allocator_metric_spec(
    kind: AllocatorKind,
    comparable: Option<AllocatorComparisonStats>,
) -> Seq<MetricView> {
    seq![configured_view(kind)] + match comparable {
        Some(c) => comparable_metric_spec(c),
        None => seq![],
    }
}

fn push_optional_gauge(r: &mut Vec<Metric>, v: Option<u64>, name: &'static str, help: &'static str)
    ensures
        metric_views(final(r)@) == metric_views(old(r)@) + optional_gauge(v, name@, help@),
{
    let ghost before = metric_views(r@);
    match v {
        Some(x) => {
            r.push(Metric::gauge(name, help, x));
            assert(metric_views(r@) =~= before + optional_gauge(v, name@, help@));
        },
        None => {
            assert(metric_views(r@) =~= before + optional_gauge(v, name@, help@));
        },
    }
}

/// The gauges for the present cross-allocator figures, in order.
pub fn comparable_metrics(c: &AllocatorComparisonStats) -> (r: Vec<Metric>)
    ensures
        metric_views(r@) == comparable_metric_spec(*c),
{
    let mut r: Vec<Metric> = Vec::new();
    assert(metric_views(r@) =~= comparable_gauges(*c, 0));
    push_optional_gauge(&mut r, c.allocated_bytes, "allocator_allocated_bytes", "bytes allocated according to the current allocator");
    assert(metric_views(r@) == comparable_gauges(*c, 1));
    push_optional_gauge(&mut r, c.active_bytes, "allocator_active_bytes", "bytes currently active according to the current allocator");
    assert(metric_views(r@) == comparable_gauges(*c, 2));
    push_optional_gauge(&mut r, c.resident_bytes, "allocator_resident_bytes", "resident bytes attributed to the current allocator");
    assert(metric_views(r@) == comparable_gauges(*c, 3));
    push_optional_gauge(&mut r, c.mapped_bytes, "allocator_mapped_bytes", "bytes mapped or reserved by the current allocator");
    assert(metric_views(r@) == comparable_gauges(*c, 4));
    push_optional_gauge(&mut r, c.retained_bytes, "allocator_retained_bytes", "bytes retained but not currently active according to the current allocator");
    assert(metric_views(r@) == comparable_gauges(*c, 5));
    push_optional_gauge(&mut r, c.metadata_bytes, "allocator_metadata_bytes", "bytes used for allocator metadata");
    assert(metric_views(r@) == comparable_gauges(*c, 6));
    push_optional_gauge(&mut r, c.committed_bytes, "allocator_committed_bytes", "bytes committed by the current allocator");
    assert(metric_views(r@) == comparable_gauges(*c, 7));
    push_optional_gauge(&mut r, c.allocator_structures, "allocator_structures", "allocator structures such as heaps or arenas");
    assert(metric_views(r@) == comparable_gauges(*c, 8));
    r
}

/// The gauges that the allocator collector exports for `s` besides the
/// identity label: `allocator_configured`, then, when the cross-allocator
/// figures could be read, a gauge for each figure present.
pub fn allocator_metrics(s: &AllocatorSnapshot) -> (r: Vec<Metric>)
    ensures
        metric_views(r@) == allocator_metric_spec(s.kind, s.comparable.value),
{
    let mut r: Vec<Metric> = Vec::new();
    r.push(configured_metric(s.kind));
    match &s.comparable.value {
        Some(c) => {
            let mut rest = comparable_metrics(c);
            let ghost first = metric_views(r@);
            let ghost tail = metric_views(rest@);
            r.append(&mut rest);
            assert(metric_views(r@) =~= first + tail);
        },
        None => {},
    }
    assert(metric_views(r@) =~= allocator_metric_spec(s.kind, s.comparable.value));
    r
}

/// One statistic of mimalloc: its total, peak and current value.
#[derive(Clone, Copy, Debug, PartialEq, Eq)]
pub struct MiStatCount {
    pub total: i64,
    pub peak: i64,
    pub current: i64,
}

/// The statistics that mimalloc's `mi_stats_get` reports, as far as they are read.
#[derive(Clone, Copy, Debug, PartialEq, Eq)]
pub struct MimallocRawStats {
    pub version: i32,
    pub pages: MiStatCount,
    pub reserved: MiStatCount,
    pub committed: MiStatCount,
    pub reset: MiStatCount,
    pub purged: MiStatCount,
    pub page_committed: MiStatCount,
    pub pages_abandoned: MiStatCount,
    pub threads: MiStatCount,
    pub malloc_normal: MiStatCount,
    pub malloc_huge: MiStatCount,
    pub malloc_requested: MiStatCount,
    pub segments: MiStatCount,
    pub segments_abandoned: MiStatCount,
    pub arena_count: i64,
}

/// What mimalloc's `mi_process_info` reports about the process.
#[derive(Clone, Copy, Debug, PartialEq, Eq)]
pub struct MimallocProcessInfo {
    pub current_rss: usize,
    pub peak_rss: usize,
    pub current_commit: usize,
    pub peak_commit: usize,
    pub page_faults: usize,
}

/// `x`, or zero when it is negative.
pub open spec fn non_negative(x: i64) -> int {
    if x < 0 {
        0
    } else {
        x as int
    }
}

/// `a + b` for non-negative values, or `i64::MAX` when that overflows.
pub open spec fn sat_add_i64(a: int, b: int) -> int {
    if a + b > i64::MAX {
        i64::MAX as int
    } else {
        a + b
    }
}

/// mimalloc's figures from its raw statistics: refused when the statistics
/// carry no version; negative counts read as zero; allocated bytes are the
/// normal and huge allocations together.
pub open spec fn mimalloc_stats_spec(raw: MimallocRawStats, p: MimallocProcessInfo) -> Result<MimallocStats, AllocatorError> {
    if raw.version == 0 {
        Err(AllocatorError::MimallocStatsUnavailable)
    } else {
        Ok(MimallocStats {
            version: raw.version as u32,
            allocated_current: sat_add_i64(non_negative(raw.malloc_normal.current), non_negative(raw.malloc_huge.current)) as u64,
            allocated_peak: sat_add_i64(non_negative(raw.malloc_normal.peak), non_negative(raw.malloc_huge.peak)) as u64,
            reserved_current: non_negative(raw.reserved.current) as u64,
            reserved_peak: non_negative(raw.reserved.peak) as u64,
            committed_current: non_negative(raw.committed.current) as u64,
            committed_peak: non_negative(raw.committed.peak) as u64,
            reset_current: non_negative(raw.reset.current) as u64,
            purged_current: non_negative(raw.purged.current) as u64,
            page_committed_current: non_negative(raw.page_committed.current) as u64,
            pages_current: non_negative(raw.pages.current) as u64,
            pages_abandoned_current: non_negative(raw.pages_abandoned.current) as u64,
            segments_current: non_negative(raw.segments.current) as u64,
            segments_abandoned_current: non_negative(raw.segments_abandoned.current) as u64,
            threads_current: non_negative(raw.threads.current) as u64,
            requested_current: non_negative(raw.malloc_requested.current) as u64,
            requested_peak: non_negative(raw.malloc_requested.peak) as u64,
            process_rss_current: p.current_rss as u64,
            process_rss_peak: p.peak_rss as u64,
            process_commit_current: p.current_commit as u64,
            process_commit_peak: p.peak_commit as u64,
            page_faults: p.page_faults as u64,
            arenas: non_negative(raw.arena_count) as u64,
        })
    }
}

fn clamp_to_u64(x: i64) -> (r: u64)
    ensures
        r == non_negative(x),
{
    if x < 0 {
        0
    } else {
        x as u64
    }
}

fn nonneg_sum(a: i64, b: i64) -> (r: u64)
    ensures
        r == sat_add_i64(non_negative(a), non_negative(b)),
{
    let a = if a < 0 {
        0
    } else {
        a
    };
    let b = if b < 0 {
        0
    } else {
        b
    };
    if a > i64::MAX - b {
        i64::MAX as u64
    } else {
        (a + b) as u64
    }
}

/// mimalloc's figures from its raw statistics.
pub fn mimalloc_stats_from(raw: &MimallocRawStats, p: &MimallocProcessInfo) -> (r: Result<MimallocStats, AllocatorError>)
    ensures
        r == mimalloc_stats_spec(*raw, *p),
{
    if raw.version == 0 {
        return Err(AllocatorError::MimallocStatsUnavailable);
    }
    Ok(MimallocStats {
        version: raw.version as u32,
        allocated_current: nonneg_sum(raw.malloc_normal.current, raw.malloc_huge.current),
        allocated_peak: nonneg_sum(raw.malloc_normal.peak, raw.malloc_huge.peak),
        reserved_current: clamp_to_u64(raw.reserved.current),
        reserved_peak: clamp_to_u64(raw.reserved.peak),
        committed_current: clamp_to_u64(raw.committed.current),
        committed_peak: clamp_to_u64(raw.committed.peak),
        reset_current: clamp_to_u64(raw.reset.current),
        purged_current: clamp_to_u64(raw.purged.current),
        page_committed_current: clamp_to_u64(raw.page_committed.current),
        pages_current: clamp_to_u64(raw.pages.current),
        pages_abandoned_current: clamp_to_u64(raw.pages_abandoned.current),
        segments_current: clamp_to_u64(raw.segments.current),
        segments_abandoned_current: clamp_to_u64(raw.segments_abandoned.current),
        threads_current: clamp_to_u64(raw.threads.current),
        requested_current: clamp_to_u64(raw.malloc_requested.current),
        requested_peak: clamp_to_u64(raw.malloc_requested.peak),
        process_rss_current: p.current_rss as u64,
        process_rss_peak: p.peak_rss as u64,
        process_commit_current: p.current_commit as u64,
        process_commit_peak: p.peak_commit as u64,
        page_faults: p.page_faults as u64,
        arenas: clamp_to_u64(raw.arena_count),
    })
}

} // verus!
