//! The allocation tracker behind the global allocator wrapper: coarse
//! counters, the sampled stack profile, and the decision of how much work
//! each allocation costs.
use crate::allocator::AllocatorSnapshot;
use crate::env::{selection_of, Allocator, AllocatorSelection, PprofBackend};
use crate::profile::{
    alloc_fits, alloc_spec, free_fits, free_spec, totals_of, AllocationRecord, ProfileTables,
    ProfileView,
};
use crate::sampler::{
    clock_after, sampled_spec, should_sample_allocation, SampleClock, DEFAULT_PPROF_SAMPLE_RATE,
};
use crate::stats::cgroups::MemoryStat;
use crate::stats::smaps::ProcessStats;
use crate::stats::Allocations;
use crate::trace::{capture_mode, capture_mode_of, CaptureMode};
use vstd::prelude::*;

verus! {

/// Whether jemalloc support is compiled into this build.
pub const JEMALLOC_SUPPORT: bool = false;

/// Buffered events after which a thread's counters are flushed.
pub const STATS_FLUSH_EVENTS: u64 = 1024;

/// Buffered bytes after which a thread's counters are flushed.
pub const STATS_FLUSH_BYTES: u64 = 1048576;

/// `a + b`, capped at `u64::MAX`.
pub open spec fn sat_add_u64(a: int, b: int) -> u64 {
    if a + b > u64::MAX {
        u64::MAX
    } else {
        (a + b) as u64
    }
}

/// `a + b` modulo `2^64`.
pub open spec fn wrap_add_u64(a: int, b: int) -> u64 {
    ((a + b) % 0x1_0000_0000_0000_0000) as u64
}

/// A thread's buffered counters, flushed into the process totals in
/// batches.
#[derive(Clone, Copy, Debug, PartialEq, Eq, Structural)]
pub struct LocalAllocationStats {
    pub allocated: u64,
    pub freed: u64,
    pub allocations: u64,
    pub frees: u64,
}

/// Whether buffered counters are due for a flush.
pub open spec fn flush_due(l: LocalAllocationStats) -> bool {
    sat_add_u64(l.allocations as int, l.frees as int) >= STATS_FLUSH_EVENTS || sat_add_u64(
        l.allocated as int,
        l.freed as int,
    ) >= STATS_FLUSH_BYTES
}

/// The process totals after `l` is flushed into `g` (the totals wrap, as
/// atomic additions do).
pub open spec fn flushed_into(g: Allocations, l: LocalAllocationStats) -> Allocations {
    Allocations {
        allocated: wrap_add_u64(g.allocated as int, l.allocated as int),
        freed: wrap_add_u64(g.freed as int, l.freed as int),
        allocations: wrap_add_u64(g.allocations as int, l.allocations as int),
        frees: wrap_add_u64(g.frees as int, l.frees as int),
    }
}

pub open spec fn zero_local() -> LocalAllocationStats {
    LocalAllocationStats { allocated: 0, freed: 0, allocations: 0, frees: 0 }
}

/// The buffer after one allocation of `size` bytes, before any flush.
pub open spec fn local_after_alloc(l: LocalAllocationStats, size: u64) -> LocalAllocationStats {
    LocalAllocationStats {
        allocated: sat_add_u64(l.allocated as int, size as int),
        freed: l.freed,
        allocations: sat_add_u64(l.allocations as int, 1),
        frees: l.frees,
    }
}

/// The buffer after one free of `size` bytes, before any flush.
pub open spec fn local_after_free(l: LocalAllocationStats, size: u64) -> LocalAllocationStats {
    LocalAllocationStats {
        allocated: l.allocated,
        freed: sat_add_u64(l.freed as int, size as int),
        allocations: l.allocations,
        frees: sat_add_u64(l.frees as int, 1),
    }
}

fn wrapping_add(a: u64, b: u64) -> (r: u64)
    ensures
        r == wrap_add_u64(a as int, b as int),
{
    a.wrapping_add(b)
}

impl LocalAllocationStats {
    /// An empty buffer.
    pub fn new() -> (r: LocalAllocationStats)
        ensures
            r == zero_local(),
    {
        LocalAllocationStats { allocated: 0, freed: 0, allocations: 0, frees: 0 }
    }

    /// Moves the buffered counters into the process totals `global`.
    pub fn flush(&mut self, global: &mut Allocations)
        ensures
            *final(self) == zero_local(),
            *final(global) == flushed_into(*old(global), *old(self)),
    {
        global.allocated = wrapping_add(global.allocated, self.allocated);
        global.freed = wrapping_add(global.freed, self.freed);
        global.allocations = wrapping_add(global.allocations, self.allocations);
        global.frees = wrapping_add(global.frees, self.frees);
        self.allocated = 0;
        self.freed = 0;
        self.allocations = 0;
        self.frees = 0;
    }

    /// Flushes once [`STATS_FLUSH_EVENTS`] events or [`STATS_FLUSH_BYTES`]
    /// bytes are buffered.
    pub fn flush_if_needed(&mut self, global: &mut Allocations)
        ensures
            flush_due(*old(self)) ==> *final(self) == zero_local() && *final(global)
                == flushed_into(*old(global), *old(self)),
            !flush_due(*old(self)) ==> *final(self) == *old(self) && *final(global) == *old(
                global,
            ),
    {
        let events = self.allocations.saturating_add(self.frees);
        let bytes = self.allocated.saturating_add(self.freed);
        if events >= STATS_FLUSH_EVENTS || bytes >= STATS_FLUSH_BYTES {
            self.flush(global);
        }
    }

    /// Buffers one allocation of `size` bytes, flushing when due.
    pub fn record_allocation(&mut self, global: &mut Allocations, size: u64)
        ensures
            ({
                let l = local_after_alloc(*old(self), size);
                if flush_due(l) {
                    *final(self) == zero_local() && *final(global) == flushed_into(*old(global), l)
                } else {
                    *final(self) == l && *final(global) == *old(global)
                }
            }),
    {
        self.allocated = self.allocated.saturating_add(size);
        self.allocations = self.allocations.saturating_add(1);
        self.flush_if_needed(global);
    }

    /// Buffers one free of `size` bytes, flushing when due.
    pub fn record_deallocation(&mut self, global: &mut Allocations, size: u64)
        ensures
            ({
                let l = local_after_free(*old(self), size);
                if flush_due(l) {
                    *final(self) == zero_local() && *final(global) == flushed_into(*old(global), l)
                } else {
                    *final(self) == l && *final(global) == *old(global)
                }
            }),
    {
        self.freed = self.freed.saturating_add(size);
        self.frees = self.frees.saturating_add(1);
        self.flush_if_needed(global);
    }
}

/// How much work the wrapper does per allocation.
#[derive(Clone, Copy, Debug, PartialEq, Eq, Structural)]
pub enum TrackingMode {
    Uninitialized,
    System,
    Jemalloc,
    Mimalloc,
    Stats,
    Pprof,
    PprofStats,
}

pub open spec fn mode_code(m: TrackingMode) -> u8 {
    match m {
        TrackingMode::Uninitialized => 0,
        TrackingMode::System => 1,
        TrackingMode::Jemalloc => 2,
        TrackingMode::Mimalloc => 3,
        TrackingMode::Stats => 4,
        TrackingMode::Pprof => 5,
        TrackingMode::PprofStats => 6,
    }
}

impl TrackingMode {
    /// The number under which the mode is cached.
    pub fn as_u8(self) -> (r: u8)
        ensures
            r == mode_code(self),
    {
        match self {
            TrackingMode::Uninitialized => 0,
            TrackingMode::System => 1,
            TrackingMode::Jemalloc => 2,
            TrackingMode::Mimalloc => 3,
            TrackingMode::Stats => 4,
            TrackingMode::Pprof => 5,
            TrackingMode::PprofStats => 6,
        }
    }

    /// The mode cached as `value`; unknown numbers read as uninitialized.
    pub fn from_u8(value: u8) -> (r: TrackingMode)
        ensures
            value <= 6 ==> mode_code(r) == value,
            value > 6 ==> r == TrackingMode::Uninitialized,
    {
        match value {
            1 => TrackingMode::System,
            2 => TrackingMode::Jemalloc,
            3 => TrackingMode::Mimalloc,
            4 => TrackingMode::Stats,
            5 => TrackingMode::Pprof,
            6 => TrackingMode::PprofStats,
            _ => TrackingMode::Uninitialized,
        }
    }
}

/// Whether the mode records pprof samples.
pub open spec fn records_pprof(m: TrackingMode) -> bool {
    m == TrackingMode::Pprof || m == TrackingMode::PprofStats
}

/// What the process environment selects, read once by the caller.
#[derive(Clone, Copy, Debug, PartialEq, Eq, Structural)]
pub struct Environment {
    /// The allocator that the environment asks for, if any.
    pub allocator_override: Option<AllocatorSelection>,
    /// The pprof backend it selects.
    pub pprof_backend: PprofBackend,
    /// The sample rate it sets, if a valid one.
    pub sample_rate: Option<usize>,
}

impl Environment {
    /// An environment that sets none of the variables.
    pub fn unset() -> (r: Environment)
        ensures
            r == (Environment {
                allocator_override: None,
                pprof_backend: PprofBackend::Native,
                sample_rate: None,
            }),
    {
        Environment { allocator_override: None, pprof_backend: PprofBackend::Native, sample_rate: None }
    }
}

/// The process-wide tracking state: the profile tables, the coarse counters
/// (one buffer and the totals), the sample rate last used and the sampling
/// countdown.
pub struct TrackingState {
    pub tables: ProfileTables,
    pub local: LocalAllocationStats,
    pub global: Allocations,
    pub current_rate: usize,
    pub clock: SampleClock,
    pub env: Environment,
}

/// The tracking state taken by its contents.
pub ghost struct TrackingView {
    pub tables: ProfileView,
    pub local: LocalAllocationStats,
    pub global: Allocations,
    pub current_rate: usize,
    pub clock: SampleClock,
    pub env: Environment,
}

impl View for TrackingState {
    type V = TrackingView;

    open spec fn view(&self) -> TrackingView {
        TrackingView {
            tables: self.tables@,
            local: self.local,
            global: self.global,
            current_rate: self.current_rate,
            clock: self.clock,
            env: self.env,
        }
    }
}

impl TrackingState {
    pub open spec fn wf(&self) -> bool {
        self.tables.wf()
    }

    /// A fresh state for a process whose environment is `env`.
    pub fn new(env: Environment) -> (r: TrackingState)
        ensures
            r.wf(),
            r.tables@.pointers.len() == 0,
            r.tables@.traces.len() == 0,
            r.tables@.pointers.dom().finite(),
            r.tables@.traces.dom().finite(),
            r.local == zero_local(),
            r.global == (Allocations { allocated: 0, freed: 0, allocations: 0, frees: 0 }),
            r.current_rate == DEFAULT_PPROF_SAMPLE_RATE,
            r.clock == (SampleClock { next_sample: i64::MIN, next_sample_rate: usize::MAX }),
            r.env == env,
    {
        let tables = ProfileTables::new();
        proof {
            assert(tables@.pointers.dom() =~= Set::<usize>::empty());
            assert(tables@.traces.dom() =~= Set::<Seq<u64>>::empty());
        }
        TrackingState {
            tables,
            local: LocalAllocationStats::new(),
            global: Allocations { allocated: 0, freed: 0, allocations: 0, frees: 0 },
            current_rate: DEFAULT_PPROF_SAMPLE_RATE,
            clock: SampleClock::new(),
            env,
        }
    }

    /// The sample rate that the profile was last recorded with.
    pub fn current_pprof_sample_rate(&self) -> (r: usize)
        ensures
            r == self.current_rate,
    {
        self.current_rate
    }

    /// Counts one allocation of `size` bytes.
    pub fn record_allocation_stats(&mut self, size: usize)
        ensures
            final(self).tables == old(self).tables,
            final(self).current_rate == old(self).current_rate,
            final(self).clock == old(self).clock,
            final(self).env == old(self).env,
            ({
                let l = local_after_alloc(old(self).local, size as u64);
                if flush_due(l) {
                    final(self).local == zero_local() && final(self).global == flushed_into(
                        old(self).global,
                        l,
                    )
                } else {
                    final(self).local == l && final(self).global == old(self).global
                }
            }),
    {
        self.local.record_allocation(&mut self.global, size as u64);
    }

    /// Counts one free of `size` bytes.
    pub fn record_deallocation_stats(&mut self, size: usize)
        ensures
            final(self).tables == old(self).tables,
            final(self).current_rate == old(self).current_rate,
            final(self).clock == old(self).clock,
            final(self).env == old(self).env,
            ({
                let l = local_after_free(old(self).local, size as u64);
                if flush_due(l) {
                    final(self).local == zero_local() && final(self).global == flushed_into(
                        old(self).global,
                        l,
                    )
                } else {
                    final(self).local == l && final(self).global == old(self).global
                }
            }),
    {
        self.local.record_deallocation(&mut self.global, size as u64);
    }

    /// Counts the free of `size` bytes of a block that pprof does not track
    /// (no sample rate is active), when counters are kept (`track_stats`).
    pub fn record_unsampled_deallocation(&mut self, size: usize, track_stats: bool)
        ensures
            (final(self).local, final(self).global) == count_free(old(self)@, size, track_stats),
            final(self).tables == old(self).tables,
            final(self).current_rate == old(self).current_rate,
            final(self).clock == old(self).clock,
            final(self).env == old(self).env,
    {
        if track_stats {
            self.record_deallocation_stats(size);
        }
    }

    /// Counts a reallocation that pprof does not track (no sample rate is
    /// active), when counters are kept (`track_stats`) and the reallocation
    /// succeeded (`new_ptr` not null): the free of the `old_size` bytes, then
    /// the allocation of the `new_size` bytes. A failed one counts nothing.
    pub fn record_unsampled_reallocation(
        &mut self,
        old_size: usize,
        new_ptr: usize,
        new_size: usize,
        track_stats: bool,
    )
        ensures
            ({
                let on = track_stats && new_ptr != 0;
                let (l1, g1) = count_free(old(self)@, old_size, on);
                (final(self).local, final(self).global) == count_alloc(
                    TrackingView { local: l1, global: g1, ..old(self)@ },
                    new_size,
                    on,
                )
            }),
            final(self).tables == old(self).tables,
            final(self).current_rate == old(self).current_rate,
            final(self).clock == old(self).clock,
            final(self).env == old(self).env,
    {
        if track_stats && new_ptr != 0 {
            self.record_deallocation_stats(old_size);
            self.record_allocation_stats(new_size);
        }
    }

    /// The coarse process-wide counters, after flushing the buffer.
    pub fn allocation_stats(&mut self) -> (r: Allocations)
        ensures
            r == flushed_into(old(self).global, old(self).local),
            final(self).global == r,
            final(self).local == zero_local(),
            final(self).tables == old(self).tables,
            final(self).current_rate == old(self).current_rate,
            final(self).clock == old(self).clock,
            final(self).env == old(self).env,
    {
        self.local.flush(&mut self.global);
        self.global
    }
}

/// Global allocator configuration: which collectors run and at which
/// sample rate, plus the rate and tracking mode once they are resolved.
#[derive(Clone, Copy, Debug)]
pub struct PprofAlloc {
    /// Record pprof stack samples.
    pub pprof: bool,
    /// Keep coarse counters.
    pub stats: bool,
    /// Average bytes between pprof samples: 0 disables pprof, 1 records
    /// every allocation.
    pub pprof_sample_rate: usize,
    /// Read the sample rate from the environment, with `pprof_sample_rate`
    /// as the default.
    pub pprof_sample_rate_from_env: bool,
    /// The rate read from the environment; `None` until it is read.
    pub resolved_pprof_sample_rate: Option<usize>,
    /// The cached tracking mode.
    pub tracking_mode: TrackingMode,
    /// The allocator used when the environment selects none.
    pub default_allocator: Allocator,
}

/// The configuration that [`PprofAlloc::new`] gives.
pub open spec fn initial_config() -> PprofAlloc {
    PprofAlloc {
        pprof: false,
        stats: false,
        pprof_sample_rate: DEFAULT_PPROF_SAMPLE_RATE,
        pprof_sample_rate_from_env: false,
        resolved_pprof_sample_rate: None,
        tracking_mode: TrackingMode::Uninitialized,
        default_allocator: Allocator::System,
    }
}

/// The sample rate in effect: the configured one, or the one the
/// environment sets (the configured one when it sets none), read once.
pub open spec fn rate_spec(a: PprofAlloc, env: Environment) -> usize {
    if a.pprof_sample_rate_from_env {
        match a.resolved_pprof_sample_rate {
            Some(r) => r,
            None => match env.sample_rate {
                Some(r) => r,
                None => a.pprof_sample_rate,
            },
        }
    } else {
        a.pprof_sample_rate
    }
}

/// The configuration once the sample rate has been resolved.
pub open spec fn resolve_rate(a: PprofAlloc, env: Environment) -> PprofAlloc {
    if a.pprof_sample_rate_from_env && a.resolved_pprof_sample_rate is None {
        PprofAlloc { resolved_pprof_sample_rate: Some(rate_spec(a, env)), ..a }
    } else {
        a
    }
}

/// The allocator in use.
pub open spec fn selected_spec(a: PprofAlloc, env: Environment) -> AllocatorSelection {
    match env.allocator_override {
        Some(s) => s,
        None => selection_of(a.default_allocator),
    }
}

/// Whether jemalloc's own profiler takes the place of the wrapper's.
pub open spec fn native_pprof(a: PprofAlloc, env: Environment) -> bool {
    JEMALLOC_SUPPORT && selected_spec(a, env) == AllocatorSelection::Jemalloc && env.pprof_backend
        == PprofBackend::Native
}

/// The tracking mode that the configuration and environment call for.
pub open spec fn mode_spec(a: PprofAlloc, env: Environment) -> TrackingMode {
    let native_jemalloc = JEMALLOC_SUPPORT && selected_spec(a, env) == AllocatorSelection::Jemalloc;
    let wrapper_stats = a.stats && !native_jemalloc;
    let wrapper_pprof = a.pprof && !native_pprof(a, env) && rate_spec(a, env) != 0;
    if wrapper_pprof && wrapper_stats {
        TrackingMode::PprofStats
    } else if wrapper_pprof {
        TrackingMode::Pprof
    } else if wrapper_stats {
        TrackingMode::Stats
    } else {
        match selected_spec(a, env) {
            AllocatorSelection::Jemalloc => TrackingMode::Jemalloc,
            AllocatorSelection::Mimalloc => TrackingMode::Mimalloc,
            _ => TrackingMode::System,
        }
    }
}

/// The tracking mode once it is resolved.
pub open spec fn mode_after(a: PprofAlloc, env: Environment) -> TrackingMode {
    if a.tracking_mode != TrackingMode::Uninitialized {
        a.tracking_mode
    } else {
        mode_spec(a, env)
    }
}

/// Whether resolving the tracking mode also resolves the sample rate.
pub open spec fn mode_reads_rate(a: PprofAlloc, env: Environment) -> bool {
    a.tracking_mode == TrackingMode::Uninitialized && a.pprof && !native_pprof(a, env)
}

/// The configuration once the tracking mode is resolved.
pub open spec fn resolve_mode(a: PprofAlloc, env: Environment) -> PprofAlloc {
    if a.tracking_mode != TrackingMode::Uninitialized {
        a
    } else if mode_reads_rate(a, env) {
        PprofAlloc { tracking_mode: mode_spec(a, env), ..resolve_rate(a, env) }
    } else {
        PprofAlloc { tracking_mode: mode_spec(a, env), ..a }
    }
}

/// The pprof sample rate of an allocation: `Some` when the mode records
/// samples and the rate is not zero.
pub open spec fn active_rate(a: PprofAlloc, env: Environment) -> Option<usize> {
    if records_pprof(mode_after(a, env)) && rate_spec(a, env) != 0 {
        Some(rate_spec(a, env))
    } else {
        None
    }
}

/// Whether looking up the active rate records the rate as current.
pub open spec fn active_touches_rate(a: PprofAlloc, env: Environment) -> bool {
    mode_reads_rate(a, env) || records_pprof(mode_after(a, env))
}

/// The configuration once the active rate has been looked up.
pub open spec fn resolve_active(a: PprofAlloc, env: Environment) -> PprofAlloc {
    if records_pprof(mode_after(a, env)) {
        resolve_rate(resolve_mode(a, env), env)
    } else {
        resolve_mode(a, env)
    }
}

/// Resolving the rate does not change it.
pub proof fn lemma_rate_resolution_stable(a: PprofAlloc, env: Environment)
    ensures
        rate_spec(resolve_rate(a, env), env) == rate_spec(a, env),
        rate_spec(resolve_mode(a, env), env) == rate_spec(a, env),
        rate_spec(resolve_active(a, env), env) == rate_spec(a, env),
        resolve_mode(a, env).tracking_mode == mode_after(a, env),
        resolve_active(a, env).tracking_mode == mode_after(a, env),
{
}

impl PprofAlloc {
    /// An allocator wrapper with every collector off, the default sample
    /// rate, and the system allocator as default.
    pub fn new() -> (r: PprofAlloc)
        ensures
            r == initial_config(),
    {
        PprofAlloc {
            pprof: false,
            stats: false,
            pprof_sample_rate: DEFAULT_PPROF_SAMPLE_RATE,
            pprof_sample_rate_from_env: false,
            resolved_pprof_sample_rate: None,
            tracking_mode: TrackingMode::Uninitialized,
            default_allocator: Allocator::System,
        }
    }

    /// Sets the allocator used when the environment selects none.
    pub fn with_default(self, allocator: Allocator) -> (r: PprofAlloc)
        ensures
            r == (PprofAlloc { default_allocator: allocator, ..self }),
    {
        PprofAlloc { default_allocator: allocator, ..self }
    }

    /// Enables sampled pprof stack profiling.
    pub fn with_pprof(self) -> (r: PprofAlloc)
        ensures
            r == (PprofAlloc { pprof: true, ..self }),
    {
        PprofAlloc { pprof: true, ..self }
    }

    /// Enables pprof stack profiling with an explicit byte sample rate.
    pub fn with_pprof_sample_rate(self, bytes: usize) -> (r: PprofAlloc)
        ensures
            r == (PprofAlloc {
                pprof: true,
                pprof_sample_rate: bytes,
                pprof_sample_rate_from_env: false,
                ..self
            }),
    {
        PprofAlloc { pprof: true, pprof_sample_rate: bytes, pprof_sample_rate_from_env: false, ..self }
    }

    /// Enables pprof stack profiling with the rate read from the
    /// environment, `default_rate` when it sets none.
    pub fn with_pprof_sample_rate_from_env(self, default_rate: usize) -> (r: PprofAlloc)
        ensures
            r == (PprofAlloc {
                pprof: true,
                pprof_sample_rate: default_rate,
                pprof_sample_rate_from_env: true,
                ..self
            }),
    {
        PprofAlloc {
            pprof: true,
            pprof_sample_rate: default_rate,
            pprof_sample_rate_from_env: true,
            ..self
        }
    }

    /// Enables the coarse allocation and free counters.
    pub fn with_stats(self) -> (r: PprofAlloc)
        ensures
            r == (PprofAlloc { stats: true, ..self }),
    {
        PprofAlloc { stats: true, ..self }
    }

    /// The sample rate in effect, reading the environment's once.
    pub fn effective_pprof_sample_rate(&mut self, env: &Environment) -> (r: usize)
        ensures
            r == rate_spec(*old(self), *env),
            *final(self) == resolve_rate(*old(self), *env),
    {
        if self.pprof_sample_rate_from_env {
            if let Some(resolved) = self.resolved_pprof_sample_rate {
                return resolved;
            }
            let resolved = match env.sample_rate {
                Some(r) => r,
                None => self.pprof_sample_rate,
            };
            self.resolved_pprof_sample_rate = Some(resolved);
            resolved
        } else {
            self.pprof_sample_rate
        }
    }

    /// The tracking mode, resolved on first use from the configuration and
    /// the environment; resolving it records the sample rate as current
    /// when the wrapper profiles.
    pub fn tracking_mode(&mut self, state: &mut TrackingState) -> (r: TrackingMode)
        ensures
            r == mode_after(*old(self), old(state).env),
            *final(self) == resolve_mode(*old(self), old(state).env),
            final(state).current_rate == (if mode_reads_rate(*old(self), old(state).env) {
                rate_spec(*old(self), old(state).env)
            } else {
                old(state).current_rate
            }),
            final(state).tables == old(state).tables,
            final(state).local == old(state).local,
            final(state).global == old(state).global,
            final(state).clock == old(state).clock,
            final(state).env == old(state).env,
    {
        if self.tracking_mode != TrackingMode::Uninitialized {
            return self.tracking_mode;
        }
        let selected = match state.env.allocator_override {
            Some(s) => s,
            None => self.default_allocator.as_selection(),
        };
        let native_jemalloc = JEMALLOC_SUPPORT && selected == AllocatorSelection::Jemalloc;
        let native = native_jemalloc && state.env.pprof_backend == PprofBackend::Native;
        let wrapper_stats = self.stats && !native_jemalloc;
        let mut wrapper_pprof = false;
        if self.pprof && !native {
            let env = state.env;
            let rate = self.effective_pprof_sample_rate(&env);
            state.current_rate = rate;
            wrapper_pprof = rate != 0;
        }
        let mode = if wrapper_pprof && wrapper_stats {
            TrackingMode::PprofStats
        } else if wrapper_pprof {
            TrackingMode::Pprof
        } else if wrapper_stats {
            TrackingMode::Stats
        } else {
            match selected {
                AllocatorSelection::Jemalloc => TrackingMode::Jemalloc,
                AllocatorSelection::Mimalloc => TrackingMode::Mimalloc,
                _ => TrackingMode::System,
            }
        };
        self.tracking_mode = mode;
        mode
    }
}

/// The counters after an allocation of `size` bytes is counted, when `on`.
pub open spec fn count_alloc(v: TrackingView, size: usize, on: bool) -> (LocalAllocationStats, Allocations) {
    if on {
        let l = local_after_alloc(v.local, size as u64);
        if flush_due(l) {
            (zero_local(), flushed_into(v.global, l))
        } else {
            (l, v.global)
        }
    } else {
        (v.local, v.global)
    }
}

/// The counters after a free of `size` bytes is counted, when `on`.
pub open spec fn count_free(v: TrackingView, size: usize, on: bool) -> (LocalAllocationStats, Allocations) {
    if on {
        let l = local_after_free(v.local, size as u64);
        if flush_due(l) {
            (zero_local(), flushed_into(v.global, l))
        } else {
            (l, v.global)
        }
    } else {
        (v.local, v.global)
    }
}

/// The rate recorded as current once the active rate was looked up.
pub open spec fn rate_after_active(a: PprofAlloc, v: TrackingView) -> usize {
    if active_touches_rate(a, v.env) {
        rate_spec(a, v.env)
    } else {
        v.current_rate
    }
}

/// Whether an allocation of `size` bytes on stack `t` is recorded in the
/// profile.
pub open spec fn alloc_recorded(a: PprofAlloc, v: TrackingView, size: usize, reset: i64) -> bool {
    match active_rate(a, v.env) {
        Some(rate) => sampled_spec(v.clock, size, rate, reset),
        None => false,
    }
}

/// The totals of the profile stay within `u64` when the allocation is
/// recorded.
pub open spec fn alloc_ok(a: PprofAlloc, v: TrackingView, size: usize, t: Seq<u64>, reset: i64) -> bool {
    alloc_recorded(a, v, size, reset) ==> alloc_fits(v.tables, size, t)
}

/// What the wrapper does on an allocation of `size` bytes at `ptr` made on
/// stack `t`: count it when counters are on; when the mode records pprof
/// samples at a non-zero rate, run the countdown down and, if the
/// allocation is sampled, record it in the profile. `reset` and `fresh` are
/// the distances drawn for the countdown.
pub open spec fn alloc_step(
    a: PprofAlloc,
    v: TrackingView,
    ptr: usize,
    size: usize,
    t: Seq<u64>,
    reset: i64,
    fresh: i64,
) -> (PprofAlloc, TrackingView) {
    let counted = count_alloc(v, size, a.stats);
    let clock = match active_rate(a, v.env) {
        Some(rate) => clock_after(v.clock, size, rate, reset, fresh),
        None => v.clock,
    };
    (
        resolve_active(a, v.env),
        TrackingView {
            tables: if alloc_recorded(a, v, size, reset) {
                alloc_spec(v.tables, ptr, size, t)
            } else {
                v.tables
            },
            local: counted.0,
            global: counted.1,
            current_rate: rate_after_active(a, v),
            clock,
            env: v.env,
        },
    )
}

/// Whether frees look pointers up in the profile.
pub open spec fn frees_tracked(a: PprofAlloc, env: Environment) -> bool {
    a.pprof && rate_spec(a, env) != 0
}

/// Whether a free of `ptr` finds a record in the profile.
pub open spec fn free_found(a: PprofAlloc, v: TrackingView, ptr: usize) -> bool {
    frees_tracked(a, v.env) && v.tables.pointers.contains_key(ptr)
}

/// The totals of the profile stay within `u64` when the free is recorded.
pub open spec fn free_ok(a: PprofAlloc, v: TrackingView, ptr: usize) -> bool {
    free_found(a, v, ptr) ==> free_fits(
        v.tables,
        v.tables.pointers[ptr].0,
        v.tables.pointers[ptr].1,
    )
}

/// What the wrapper does on a free of `size` bytes at `ptr`: when the
/// profile is on, the pointer's record is taken out and its stack is
/// credited with the record's size; the free is counted (with the record's
/// size when there was one) when counters are on.
pub open spec fn free_step(a: PprofAlloc, v: TrackingView, ptr: usize, size: usize) -> (
    PprofAlloc,
    TrackingView,
) {
    let found = free_found(a, v, ptr);
    let rec = v.tables.pointers[ptr];
    let freed = if found {
        rec.0
    } else {
        size
    };
    let counted = count_free(v, freed, a.stats);
    let taken = if frees_tracked(a, v.env) {
        ProfileView { pointers: v.tables.pointers.remove(ptr), traces: v.tables.traces }
    } else {
        v.tables
    };
    (
        if a.pprof {
            resolve_rate(a, v.env)
        } else {
            a
        },
        TrackingView {
            tables: if found {
                free_spec(taken, rec.0, rec.1)
            } else {
                taken
            },
            local: counted.0,
            global: counted.1,
            ..v
        },
    )
}

impl PprofAlloc {
    /// The sample rate of the next profiled allocation: `Some` when the
    /// tracking mode records pprof samples and the rate is not zero. The
    /// rate is recorded as current.
    pub fn active_pprof_sample_rate(&mut self, state: &mut TrackingState) -> (r: Option<usize>)
        ensures
            r == active_rate(*old(self), old(state).env),
            *final(self) == resolve_active(*old(self), old(state).env),
            final(state)@ == (TrackingView { current_rate: rate_after_active(*old(self), old(state)@), ..old(state)@ }),
            final(state).tables == old(state).tables,
    {
        proof {
            lemma_rate_resolution_stable(*self, state.env);
        }
        let mode = self.tracking_mode(state);
        if !(mode == TrackingMode::Pprof || mode == TrackingMode::PprofStats) {
            return None;
        }
        let env = state.env;
        let rate = self.effective_pprof_sample_rate(&env);
        state.current_rate = rate;
        if rate != 0 {
            Some(rate)
        } else {
            None
        }
    }

    /// Records a sampled allocation of `size` bytes at `ptr` made on stack
    /// `trace`.
    pub fn record_allocation_with_trace(
        &self,
        state: &mut TrackingState,
        ptr: usize,
        size: usize,
        trace: Vec<u64>,
    )
        requires
            old(state).wf(),
            alloc_fits(old(state).tables@, size, trace@),
        ensures
            final(state).wf(),
            final(state)@ == (TrackingView {
                tables: alloc_spec(old(state).tables@, ptr, size, trace@),
                ..old(state)@
            }),
    {
        state.tables.record_allocation_with_trace(ptr, size, trace);
    }

    /// Runs the countdown down by an allocation of `size` bytes at
    /// `sample_rate` and records the allocation if it is sampled.
    pub fn record_profile_allocation(
        &self,
        state: &mut TrackingState,
        ptr: usize,
        size: usize,
        sample_rate: usize,
        trace: Vec<u64>,
        reset: i64,
        fresh: i64,
    )
        requires
            old(state).wf(),
            sampled_spec(old(state).clock, size, sample_rate, reset) ==> alloc_fits(
                old(state).tables@,
                size,
                trace@,
            ),
        ensures
            final(state).wf(),
            final(state)@ == (TrackingView {
                tables: if sampled_spec(old(state).clock, size, sample_rate, reset) {
                    alloc_spec(old(state).tables@, ptr, size, trace@)
                } else {
                    old(state).tables@
                },
                clock: clock_after(old(state).clock, size, sample_rate, reset, fresh),
                ..old(state)@
            }),
    {
        if should_sample_allocation(&mut state.clock, size, sample_rate, reset, fresh) {
            state.tables.record_allocation_with_trace(ptr, size, trace);
        }
    }

    /// Handles an allocation of `size` bytes at `ptr` made on stack `trace`
    /// (see [`alloc_step`]).
    pub fn record_allocation(
        &mut self,
        state: &mut TrackingState,
        ptr: usize,
        size: usize,
        trace: Vec<u64>,
        reset: i64,
        fresh: i64,
    )
        requires
            old(state).wf(),
            alloc_ok(*old(self), old(state)@, size, trace@, reset),
        ensures
            final(state).wf(),
            (*final(self), final(state)@) == alloc_step(
                *old(self),
                old(state)@,
                ptr,
                size,
                trace@,
                reset,
                fresh,
            ),
    {
        if self.stats {
            state.record_allocation_stats(size);
        }
        match self.active_pprof_sample_rate(state) {
            Some(rate) => {
                self.record_profile_allocation(state, ptr, size, rate, trace, reset, fresh);
            },
            None => {},
        }
    }

    /// Takes the record of `ptr` out of the profile, when the profile is on.
    pub fn take_allocation_record(&mut self, state: &mut TrackingState, ptr: usize) -> (r: Option<
        AllocationRecord,
    >)
        requires
            old(state).wf(),
        ensures
            final(state).wf(),
            *final(self) == (if old(self).pprof {
                resolve_rate(*old(self), old(state).env)
            } else {
                *old(self)
            }),
            final(state)@ == (TrackingView {
                tables: if frees_tracked(*old(self), old(state).env) {
                    ProfileView {
                        pointers: old(state)@.tables.pointers.remove(ptr),
                        traces: old(state)@.tables.traces,
                    }
                } else {
                    old(state)@.tables
                },
                ..old(state)@
            }),
            match r {
                Some(p) => free_found(*old(self), old(state)@, ptr) && old(state)@.tables.pointers[ptr]
                    == p@,
                None => !free_found(*old(self), old(state)@, ptr),
            },
    {
        if self.pprof {
            let env = state.env;
            if self.effective_pprof_sample_rate(&env) != 0 {
                return state.tables.take_record(ptr);
            }
        }
        None
    }

    /// Puts `record` back as the record of `ptr` (a reallocation that
    /// failed keeps its old block).
    pub fn restore_allocation_record(&self, state: &mut TrackingState, ptr: usize, record: AllocationRecord)
        requires
            old(state).wf(),
        ensures
            final(state).wf(),
            final(state)@ == (TrackingView {
                tables: ProfileView {
                    pointers: old(state)@.tables.pointers.insert(ptr, record@),
                    traces: old(state)@.tables.traces,
                },
                ..old(state)@
            }),
    {
        state.tables.restore_record(ptr, record);
    }

    /// Completes a free of `size` bytes whose profile record (if any) was
    /// taken out: counts it when `track_stats` (with the record's size when
    /// there is one) and credits the record's stack.
    pub fn finish_deallocation(
        &self,
        state: &mut TrackingState,
        record: Option<AllocationRecord>,
        size: usize,
        track_stats: bool,
    )
        requires
            old(state).wf(),
            record matches Some(rec) ==> free_fits(old(state).tables@, rec.size, rec.trace@),
        ensures
            final(state).wf(),
            ({
                let freed = match record {
                    Some(rec) => rec.size,
                    None => size,
                };
                let counted = count_free(old(state)@, freed, track_stats);
                final(state)@ == (TrackingView {
                    tables: match record {
                        Some(rec) => free_spec(old(state).tables@, rec.size, rec.trace@),
                        None => old(state).tables@,
                    },
                    local: counted.0,
                    global: counted.1,
                    ..old(state)@
                })
            }),
    {
        let freed_size = match &record {
            Some(rec) => rec.size,
            None => size,
        };
        if track_stats {
            state.record_deallocation_stats(freed_size);
        }
        match record {
            Some(rec) => {
                state.tables.record_free(rec.trace, freed_size);
            },
            None => {},
        }
    }

    /// Handles a free of `size` bytes at `ptr` (see [`free_step`]).
    pub fn record_deallocation(&mut self, state: &mut TrackingState, ptr: usize, size: usize)
        requires
            old(state).wf(),
            free_ok(*old(self), old(state)@, ptr),
        ensures
            final(state).wf(),
            (*final(self), final(state)@) == free_step(*old(self), old(state)@, ptr, size),
    {
        let record = self.take_allocation_record(state, ptr);
        let track = self.stats;
        self.finish_deallocation(state, record, size, track);
    }

    /// Handles a reallocation of the `old_size` bytes at `old_ptr` to
    /// `new_size` bytes at `new_ptr`, made on stack `trace`: a free of the
    /// old block followed by an allocation of the new one.
    pub fn record_reallocation(
        &mut self,
        state: &mut TrackingState,
        old_ptr: usize,
        old_size: usize,
        new_ptr: usize,
        new_size: usize,
        trace: Vec<u64>,
        reset: i64,
        fresh: i64,
    )
        requires
            old(state).wf(),
            free_ok(*old(self), old(state)@, old_ptr),
            alloc_ok(
                free_step(*old(self), old(state)@, old_ptr, old_size).0,
                free_step(*old(self), old(state)@, old_ptr, old_size).1,
                new_size,
                trace@,
                reset,
            ),
        ensures
            final(state).wf(),
            ({
                let freed = free_step(*old(self), old(state)@, old_ptr, old_size);
                (*final(self), final(state)@) == alloc_step(
                    freed.0,
                    freed.1,
                    new_ptr,
                    new_size,
                    trace@,
                    reset,
                    fresh,
                )
            }),
    {
        self.record_deallocation(state, old_ptr, old_size);
        self.record_allocation(state, new_ptr, new_size, trace, reset, fresh);
    }
}

impl PprofAlloc {
    /// Records a fresh block at `ptr` (zero when the allocation failed, and
    /// then nothing is recorded): counted when `track_stats`, and offered to
    /// the profile at `sample_rate` when that is given.
    pub fn record_tracked_allocation(
        &self,
        state: &mut TrackingState,
        ptr: usize,
        size: usize,
        sample_rate: Option<usize>,
        track_stats: bool,
        trace: Vec<u64>,
        reset: i64,
        fresh: i64,
    )
        requires
            old(state).wf(),
            ptr != 0 ==> (sample_rate matches Some(rate) ==> (sampled_spec(
                old(state).clock,
                size,
                rate,
                reset,
            ) ==> alloc_fits(old(state).tables@, size, trace@))),
        ensures
            final(state).wf(),
            ptr == 0 ==> final(state)@ == old(state)@,
            ptr != 0 ==> ({
                let counted = count_alloc(old(state)@, size, track_stats);
                final(state)@ == match sample_rate {
                    Some(rate) => TrackingView {
                        tables: if sampled_spec(old(state).clock, size, rate, reset) {
                            alloc_spec(old(state).tables@, ptr, size, trace@)
                        } else {
                            old(state).tables@
                        },
                        clock: clock_after(old(state).clock, size, rate, reset, fresh),
                        local: counted.0,
                        global: counted.1,
                        ..old(state)@
                    },
                    None => TrackingView { local: counted.0, global: counted.1, ..old(state)@ },
                }
            }),
    {
        if ptr == 0 {
            return ;
        }
        if track_stats {
            state.record_allocation_stats(size);
        }
        match sample_rate {
            Some(rate) => {
                self.record_profile_allocation(state, ptr, size, rate, trace, reset, fresh);
            },
            None => {},
        }
    }
}

/// Estimated profile values of one stack: objects and bytes allocated in
/// total and still live.
#[derive(Clone, Copy, Debug, PartialEq, Eq, Structural)]
pub struct HeapSampleValues {
    pub alloc_objects: i64,
    pub alloc_space: i64,
    pub inuse_objects: i64,
    pub inuse_space: i64,
}

/// `value` capped at `i64::MAX`.
pub open spec fn clamp_i64(value: u64) -> i64 {
    if value <= i64::MAX {
        value as i64
    } else {
        i64::MAX
    }
}

/// `value` capped at `i64::MAX`.
pub fn saturating_i64(value: u64) -> (r: i64)
    ensures
        r == clamp_i64(value),
{
    if value <= 0x7fff_ffff_ffff_ffffu64 {
        value as i64
    } else {
        i64::MAX
    }
}

/// The estimate for `count` sampled objects of `size` bytes in total, where
/// it needs no scaling: zero when either is zero, the figures themselves
/// when every allocation is sampled (`sample_rate` at most one). `None`
/// when the figures must be scaled up by the sampling probability.
pub open spec fn exact_sample_spec(count: u64, size: u64, sample_rate: usize) -> Option<(i64, i64)> {
    if count == 0 || size == 0 {
        Some((0i64, 0i64))
    } else if sample_rate <= 1 {
        Some((clamp_i64(count), clamp_i64(size)))
    } else {
        None
    }
}

/// See [`exact_sample_spec`].
pub fn exact_heap_sample(count: u64, size: u64, sample_rate: usize) -> (r: Option<(i64, i64)>)
    ensures
        r == exact_sample_spec(count, size, sample_rate),
{
    if count == 0 || size == 0 {
        return Some((0, 0));
    }
    if sample_rate <= 1 {
        return Some((saturating_i64(count), saturating_i64(size)));
    }
    None
}

/// The values of a stack with totals `a`, where they need no scaling.
pub open spec fn values_spec(a: Allocations, sample_rate: usize) -> Option<HeapSampleValues> {
    let alloc = exact_sample_spec(a.allocations, a.allocated, sample_rate);
    let inuse = exact_sample_spec(
        sat_sub_u64(a.allocations, a.frees),
        sat_sub_u64(a.allocated, a.freed),
        sample_rate,
    );
    match (alloc, inuse) {
        (Some(x), Some(y)) => Some(
            HeapSampleValues { alloc_objects: x.0, alloc_space: x.1, inuse_objects: y.0, inuse_space: y.1 },
        ),
        _ => None,
    }
}

/// Law of a stack's values where every allocation is sampled (rate at most
/// one): the allocated objects and bytes are its allocation count and
/// allocated bytes, the live objects and bytes are its allocations less
/// its frees and its allocated less its freed bytes (never below zero);
/// each pair is zero when either of its figures is zero, and each figure
/// is capped at `i64::MAX`.
pub proof fn law_unscaled_values_are_the_totals(a: Allocations, sample_rate: usize)
    requires
        sample_rate <= 1,
    ensures
        ({
            let live_objects: u64 = if a.allocations >= a.frees { (a.allocations - a.frees) as u64 } else { 0 };
            let live_bytes: u64 = if a.allocated >= a.freed { (a.allocated - a.freed) as u64 } else { 0 };
            let cap = |x: u64| if x <= i64::MAX { x as i64 } else { i64::MAX };
            values_spec(a, sample_rate) == Some(
                HeapSampleValues {
                    alloc_objects: if a.allocations == 0 || a.allocated == 0 { 0 } else { cap(a.allocations) },
                    alloc_space: if a.allocations == 0 || a.allocated == 0 { 0 } else { cap(a.allocated) },
                    inuse_objects: if live_objects == 0 || live_bytes == 0 { 0 } else { cap(live_objects) },
                    inuse_space: if live_objects == 0 || live_bytes == 0 { 0 } else { cap(live_bytes) },
                },
            )
        }),
{
}

/// `a - b`, or zero when `b` exceeds `a`.
pub open spec fn sat_sub_u64(a: u64, b: u64) -> u64 {
    if a >= b {
        (a - b) as u64
    } else {
        0
    }
}

impl HeapSampleValues {
    /// The values of a stack with totals `stats`, where they need no
    /// scaling (see [`exact_sample_spec`]); `None` when they must be scaled.
    pub fn from_allocations(stats: &Allocations, sample_rate: usize) -> (r: Option<HeapSampleValues>)
        ensures
            r == values_spec(*stats, sample_rate),
    {
        let alloc = exact_heap_sample(stats.allocations, stats.allocated, sample_rate);
        let inuse = exact_heap_sample(
            stats.in_use_allocations(),
            stats.in_use_bytes(),
            sample_rate,
        );
        match (alloc, inuse) {
            (Some(x), Some(y)) => Some(
                HeapSampleValues {
                    alloc_objects: x.0,
                    alloc_space: x.1,
                    inuse_objects: y.0,
                    inuse_space: y.1,
                },
            ),
            _ => None,
        }
    }
}

/// Summary of the recorded pprof allocation profile.
///
/// Values are scaled according to the active pprof sample rate, so they are
/// estimates when sampling is enabled.
#[derive(Clone, Copy, Debug, PartialEq, Eq, Structural)]
pub struct PprofSummary {
    /// Number of distinct stack traces recorded in the profile.
    pub total_stacks: u64,
    /// Number of distinct stack traces with estimated live bytes greater than zero.
    pub live_stacks: u64,
    /// Estimated cumulative allocated bytes across all recorded stacks.
    pub alloc_space_bytes: u64,
    /// Estimated currently live bytes across all recorded stacks.
    pub inuse_space_bytes: u64,
    /// Estimated cumulative allocation count across all recorded stacks.
    pub alloc_objects: u64,
    /// Estimated currently live allocation count across all recorded stacks.
    pub inuse_objects: u64,
}

/// `v`, or zero when it is negative.
pub open spec fn nonneg(v: i64) -> int {
    if v > 0 {
        v as int
    } else {
        0
    }
}

/// The six figures of the summary of `vals`, as exact integers: stacks,
/// live stacks, allocated bytes, live bytes, allocated objects, live objects.
pub open spec fn summary_sums(vals: Seq<HeapSampleValues>) -> (int, int, int, int, int, int)
    decreases vals.len(),
{
    if vals.len() == 0 {
        (0, 0, 0, 0, 0, 0)
    } else {
        let s = summary_sums(vals.drop_last());
        let v = vals.last();
        (
            s.0 + 1,
            s.1 + if v.inuse_space > 0 {
                1int
            } else {
                0int
            },
            s.2 + nonneg(v.alloc_space),
            s.3 + nonneg(v.inuse_space),
            s.4 + nonneg(v.alloc_objects),
            s.5 + nonneg(v.inuse_objects),
        )
    }
}

/// Whether every figure of the summary of `vals` fits in `u64`.
pub open spec fn summary_fits(vals: Seq<HeapSampleValues>) -> bool {
    let s = summary_sums(vals);
    s.0 <= u64::MAX && s.1 <= u64::MAX && s.2 <= u64::MAX && s.3 <= u64::MAX && s.4 <= u64::MAX
        && s.5 <= u64::MAX
}

/// The summary whose figures are those of `vals`.
pub open spec fn summary_of(vals: Seq<HeapSampleValues>) -> PprofSummary {
    let s = summary_sums(vals);
    PprofSummary {
        total_stacks: s.0 as u64,
        live_stacks: s.1 as u64,
        alloc_space_bytes: s.2 as u64,
        inuse_space_bytes: s.3 as u64,
        alloc_objects: s.4 as u64,
        inuse_objects: s.5 as u64,
    }
}

proof fn lemma_summary_sums_nonneg(vals: Seq<HeapSampleValues>)
    ensures
        ({
            let a = summary_sums(vals);
            0 <= a.0 && 0 <= a.1 && 0 <= a.2 && 0 <= a.3 && 0 <= a.4 && 0 <= a.5
        }),
    decreases vals.len(),
{
    if vals.len() > 0 {
        lemma_summary_sums_nonneg(vals.drop_last());
    }
}

proof fn lemma_summary_sums_grow(vals: Seq<HeapSampleValues>, k: int)
    requires
        0 <= k <= vals.len(),
    ensures
        ({
            let a = summary_sums(vals.take(k));
            let b = summary_sums(vals);
            0 <= a.0 <= b.0 && 0 <= a.1 <= b.1 && 0 <= a.2 <= b.2 && 0 <= a.3 <= b.3 && 0 <= a.4
                <= b.4 && 0 <= a.5 <= b.5
        }),
    decreases vals.len() - k,
{
    lemma_summary_sums_nonneg(vals.take(k));
    if k < vals.len() {
        lemma_summary_sums_grow(vals, k + 1);
        assert(vals.take(k + 1).drop_last() =~= vals.take(k));
        assert(vals.take(k + 1).last() == vals[k]);
    } else {
        assert(vals.take(k) =~= vals);
    }
}

/// A summary never counts more live stacks than stacks.
pub proof fn lemma_live_stacks_within_total(vals: Seq<HeapSampleValues>)
    ensures
        0 <= summary_sums(vals).1 <= summary_sums(vals).0 == vals.len(),
    decreases vals.len(),
{
    if vals.len() > 0 {
        lemma_live_stacks_within_total(vals.drop_last());
    }
}

/// Adds up the values of the stacks of a profile: every stack counts, a
/// stack with live bytes counts as live, and the negative estimates count as
/// zero.
pub fn summarize(vals: &Vec<HeapSampleValues>) -> (r: PprofSummary)
    requires
        summary_fits(vals@),
    ensures
        r == summary_of(vals@),
{
    let mut r = PprofSummary {
        total_stacks: 0,
        live_stacks: 0,
        alloc_space_bytes: 0,
        inuse_space_bytes: 0,
        alloc_objects: 0,
        inuse_objects: 0,
    };
    let mut i: usize = 0;
    while i < vals.len()
        invariant
            i <= vals.len(),
            summary_fits(vals@),
            r == summary_of(vals@.take(i as int)),
        decreases vals.len() - i,
    {
        proof {
            lemma_summary_sums_grow(vals@, i + 1);
            lemma_summary_sums_grow(vals@, i as int);
            assert(vals@.take(i + 1).drop_last() =~= vals@.take(i as int));
            assert(vals@.take(i + 1).last() == vals@[i as int]);
        }
        let v = vals[i];
        let live: u64 = if v.inuse_space > 0 {
            1
        } else {
            0
        };
        r = PprofSummary {
            total_stacks: r.total_stacks + 1,
            live_stacks: r.live_stacks + live,
            alloc_space_bytes: r.alloc_space_bytes + nonneg_u64(v.alloc_space),
            inuse_space_bytes: r.inuse_space_bytes + nonneg_u64(v.inuse_space),
            alloc_objects: r.alloc_objects + nonneg_u64(v.alloc_objects),
            inuse_objects: r.inuse_objects + nonneg_u64(v.inuse_objects),
        };
        i = i + 1;
    }
    assert(vals@.take(i as int) =~= vals@);
    r
}

fn nonneg_u64(v: i64) -> (r: u64)
    ensures
        r == nonneg(v),
{
    if v > 0 {
        v as u64
    } else {
        0
    }
}

/// The summary of `vals`, or `None` when a figure exceeds `u64`.
pub fn checked_summary(vals: &Vec<HeapSampleValues>) -> (r: Option<PprofSummary>)
    ensures
        r == (if summary_fits(vals@) {
            Some(summary_of(vals@))
        } else {
            None::<PprofSummary>
        }),
{
    let mut r = PprofSummary {
        total_stacks: 0,
        live_stacks: 0,
        alloc_space_bytes: 0,
        inuse_space_bytes: 0,
        alloc_objects: 0,
        inuse_objects: 0,
    };
    let mut i: usize = 0;
    while i < vals.len()
        invariant
            i <= vals.len(),
            summary_fits(vals@.take(i as int)),
            r == summary_of(vals@.take(i as int)),
        decreases vals.len() - i,
    {
        proof {
            lemma_summary_sums_nonneg(vals@.take(i as int));
            assert(vals@.take(i + 1).drop_last() =~= vals@.take(i as int));
            assert(vals@.take(i + 1).last() == vals@[i as int]);
            lemma_summary_sums_grow(vals@, i + 1);
        }
        let v = vals[i];
        let live: u64 = if v.inuse_space > 0 {
            1
        } else {
            0
        };
        let next = match (
            r.total_stacks.checked_add(1),
            r.live_stacks.checked_add(live),
            r.alloc_space_bytes.checked_add(nonneg_u64(v.alloc_space)),
            r.inuse_space_bytes.checked_add(nonneg_u64(v.inuse_space)),
            r.alloc_objects.checked_add(nonneg_u64(v.alloc_objects)),
            r.inuse_objects.checked_add(nonneg_u64(v.inuse_objects)),
        ) {
            (Some(a), Some(b), Some(c), Some(d), Some(e), Some(f)) => PprofSummary {
                total_stacks: a,
                live_stacks: b,
                alloc_space_bytes: c,
                inuse_space_bytes: d,
                alloc_objects: e,
                inuse_objects: f,
            },
            _ => {
                return None;
            },
        };
        r = next;
        i = i + 1;
    }
    assert(vals@.take(i as int) =~= vals@);
    Some(r)
}

/// The totals of a sequence of stack entries.
pub open spec fn entry_totals(s: Seq<(Seq<u64>, Allocations)>) -> Seq<Allocations> {
    s.map_values(|e: (Seq<u64>, Allocations)| e.1)
}

/// Whether `s` lists each entry of `m` exactly once.
pub open spec fn enumerates(s: Seq<(Seq<u64>, Allocations)>, m: Map<Seq<u64>, Allocations>) -> bool {
    &&& s.len() == m.len()
    &&& forall|i: int| 0 <= i < s.len() ==> m.contains_key(#[trigger] s[i].0) && m[s[i].0] == s[i].1
    &&& forall|i: int, j: int| 0 <= i < j < s.len() ==> #[trigger] s[i].0 != #[trigger] s[j].0
    &&& forall|k: Seq<u64>| m.contains_key(k) ==> exists|i: int| 0 <= i < s.len() && #[trigger] s[i].0 == k
}

/// The values of a sequence of stack totals, where none needs scaling.
pub open spec fn values_of(s: Seq<Allocations>, sample_rate: usize) -> Option<Seq<HeapSampleValues>>
    decreases s.len(),
{
    if s.len() == 0 {
        Some(Seq::empty())
    } else {
        match (values_of(s.drop_last(), sample_rate), values_spec(s.last(), sample_rate)) {
            (Some(vs), Some(v)) => Some(vs.push(v)),
            _ => None,
        }
    }
}

/// The summary of the stacks in the order `s` lists them.
pub open spec fn summary_spec(s: Seq<(Seq<u64>, Allocations)>, sample_rate: usize) -> Option<PprofSummary> {
    match values_of(entry_totals(s), sample_rate) {
        Some(vals) => if summary_fits(vals) {
            Some(summary_of(vals))
        } else {
            None
        },
        None => None,
    }
}

/// The summary of the recorded profile at the current sample rate, where no
/// stack's values need scaling (see [`exact_sample_spec`]): `None` when one
/// does, or when a figure exceeds `u64`. The stacks are walked in no fixed
/// order.
pub fn pprof_summary(state: &TrackingState) -> (r: Option<PprofSummary>)
    ensures
        exists|s: Seq<(Seq<u64>, Allocations)>|
            enumerates(s, state.tables@.traces) && r == summary_spec(s, state.current_rate),
{
    let entries = state.tables.entries();
    let ghost s: Seq<(Seq<u64>, Allocations)> = entries@.map_values(
        |e: (Vec<u64>, Allocations)| (e.0@, e.1),
    );
    assert(enumerates(s, state.tables@.traces)) by {
        assert forall|k: Seq<u64>| state.tables@.traces.contains_key(k) implies exists|i: int|
            0 <= i < s.len() && #[trigger] s[i].0 == k by {
            let i = choose|i: int| 0 <= i < entries@.len() && #[trigger] entries@[i].0@ == k;
            assert(s[i].0 == k);
        }
        assert forall|i: int, j: int| 0 <= i < j < s.len() implies #[trigger] s[i].0
            != #[trigger] s[j].0 by {
            assert(entries@[i].0@ != entries@[j].0@);
        }
    }
    let rate = state.current_rate;
    let mut vals: Vec<HeapSampleValues> = Vec::new();
    let mut i: usize = 0;
    while i < entries.len()
        invariant
            i <= entries.len(),
            s == entries@.map_values(|e: (Vec<u64>, Allocations)| (e.0@, e.1)),
            enumerates(s, state.tables@.traces),
            rate == state.current_rate,
            values_of(entry_totals(s.take(i as int)), rate) == Some(vals@),
        decreases entries.len() - i,
    {
        assert(entry_totals(s.take(i + 1)).drop_last() =~= entry_totals(s.take(i as int)));
        assert(entry_totals(s.take(i + 1)).last() == entries@[i as int].1);
        match HeapSampleValues::from_allocations(&entries[i].1, rate) {
            Some(v) => {
                vals.push(v);
            },
            None => {
                proof {
                    assert(values_of(entry_totals(s.take(i + 1)), rate) is None);
                    assert(entry_totals(s).take(i + 1) =~= entry_totals(s.take(i + 1)));
                    lemma_values_of_prefix(entry_totals(s), rate, i + 1);
                    assert(summary_spec(s, rate) is None);
                }
                return None;
            },
        }
        i = i + 1;
    }
    assert(s.take(i as int) =~= s);
    let r = checked_summary(&vals);
    assert(r == summary_spec(s, rate));
    r
}

/// The unscaled estimate for `count` objects of `size` bytes: zero when
/// either is zero, else both capped at `i64::MAX`.
pub open spec fn exact_pair(count: u64, size: u64) -> (int, int) {
    if count == 0 || size == 0 {
        (0, 0)
    } else {
        (clamp_i64(count) as int, clamp_i64(size) as int)
    }
}

/// The figures of a summary of stacks with totals `s`, where every
/// allocation is sampled: stacks, stacks with live bytes, allocated bytes,
/// live bytes, allocated objects, live objects, each stack's figures capped
/// at `i64::MAX`.
pub open spec fn stack_sums(s: Seq<Allocations>) -> (int, int, int, int, int, int)
    decreases s.len(),
{
    if s.len() == 0 {
        (0, 0, 0, 0, 0, 0)
    } else {
        let p = stack_sums(s.drop_last());
        let a = s.last();
        let alloc = exact_pair(a.allocations, a.allocated);
        let live = exact_pair(sat_sub_u64(a.allocations, a.frees), sat_sub_u64(a.allocated, a.freed));
        (
            p.0 + 1,
            p.1 + if live.1 > 0 {
                1int
            } else {
                0int
            },
            p.2 + alloc.1,
            p.3 + live.1,
            p.4 + alloc.0,
            p.5 + live.0,
        )
    }
}

proof fn lemma_unscaled_values(s: Seq<Allocations>, sample_rate: usize)
    requires
        sample_rate <= 1,
    ensures
        values_of(s, sample_rate) is Some,
        summary_sums(values_of(s, sample_rate)->0) == stack_sums(s),
    decreases s.len(),
{
    if s.len() > 0 {
        lemma_unscaled_values(s.drop_last(), sample_rate);
        let vs = values_of(s.drop_last(), sample_rate)->0;
        let v = values_spec(s.last(), sample_rate)->0;
        assert(vs.push(v).drop_last() =~= vs);
    }
}

/// Law of the profile summary where every allocation is sampled (a sample
/// rate of at most one), for the stacks listed in any order: it counts
/// every stack, counts as live the stacks with live bytes (never more than
/// all stacks), and its byte and object figures are the sums over the
/// stacks of their allocated and live bytes and objects, each stack's
/// figures capped at `i64::MAX`; it is withheld exactly when a sum exceeds
/// `u64`.
pub proof fn law_unscaled_summary_sums(s: Seq<(Seq<u64>, Allocations)>, sample_rate: usize)
    requires
        sample_rate <= 1,
    ensures
        ({
            let t = stack_sums(entry_totals(s));
            &&& 0 <= t.1 <= t.0 == s.len()
            &&& summary_spec(s, sample_rate) == if t.0 <= u64::MAX && t.1 <= u64::MAX && t.2
                <= u64::MAX && t.3 <= u64::MAX && t.4 <= u64::MAX && t.5 <= u64::MAX {
                Some(
                    PprofSummary {
                        total_stacks: t.0 as u64,
                        live_stacks: t.1 as u64,
                        alloc_space_bytes: t.2 as u64,
                        inuse_space_bytes: t.3 as u64,
                        alloc_objects: t.4 as u64,
                        inuse_objects: t.5 as u64,
                    },
                )
            } else {
                None
            }
        }),
{
    lemma_unscaled_values(entry_totals(s), sample_rate);
    let vals = values_of(entry_totals(s), sample_rate)->0;
    lemma_live_stacks_within_total(vals);
    lemma_values_len(entry_totals(s), sample_rate);
}

proof fn lemma_values_len(s: Seq<Allocations>, sample_rate: usize)
    requires
        values_of(s, sample_rate) is Some,
    ensures
        values_of(s, sample_rate)->0.len() == s.len(),
    decreases s.len(),
{
    if s.len() > 0 {
        lemma_values_len(s.drop_last(), sample_rate);
    }
}

/// A sequence of totals with values has values on every prefix.
proof fn lemma_values_of_prefix(s: Seq<Allocations>, sample_rate: usize, k: int)
    requires
        0 <= k <= s.len(),
        values_of(s.take(k), sample_rate) is None,
    ensures
        values_of(s, sample_rate) is None,
    decreases s.len() - k,
{
    if k < s.len() {
        assert(s.take(k + 1).drop_last() =~= s.take(k));
        lemma_values_of_prefix(s, sample_rate, k + 1);
    } else {
        assert(s.take(k) =~= s);
    }
}

/// Caching a tracking mode by its number and reading it back gives the same
/// mode.
pub proof fn lemma_tracking_mode_code_roundtrip(m: TrackingMode)
    ensures
        mode_code(m) <= 6,
        forall|n: TrackingMode| mode_code(n) == mode_code(m) ==> n == m,
{
}

/// The sample rate set through the environment is read once: after the
/// first read, a different environment no longer changes the rate in
/// effect.
pub proof fn lemma_env_rate_read_once(a: PprofAlloc, first: Environment, later: Environment)
    ensures
        a.pprof_sample_rate_from_env ==> resolve_rate(a, first).resolved_pprof_sample_rate == Some(
            rate_spec(a, first),
        ),
        rate_spec(resolve_rate(a, first), later) == rate_spec(a, first),
        resolve_rate(resolve_rate(a, first), later) == resolve_rate(a, first),
{
}

/// A sample rate of zero records nothing in the profile: neither
/// allocations nor frees change the pointer or stack tables.
pub proof fn lemma_zero_rate_records_nothing(
    a: PprofAlloc,
    v: TrackingView,
    ptr: usize,
    size: usize,
    t: Seq<u64>,
    reset: i64,
    fresh: i64,
)
    requires
        rate_spec(a, v.env) == 0,
    ensures
        alloc_step(a, v, ptr, size, t, reset, fresh).1.tables == v.tables,
        free_step(a, v, ptr, size).1.tables == v.tables,
{
}

/// A sample rate of one records every allocation of at least one byte,
/// once the wrapper profiles: a configuration with pprof on and nothing
/// cached yet comes to record pprof samples.
pub proof fn lemma_rate_one_records_every_allocation(
    a: PprofAlloc,
    v: TrackingView,
    size: usize,
    reset: i64,
)
    requires
        rate_spec(a, v.env) == 1,
        size > 0,
        a.tracking_mode == TrackingMode::Uninitialized || records_pprof(a.tracking_mode),
        a.pprof,
    ensures
        records_pprof(mode_after(a, v.env)),
        alloc_recorded(a, v, size, reset),
{
}

/// The in-use figures of a stack's totals.
pub open spec fn in_use(a: Allocations) -> (int, int) {
    (
        if a.allocated >= a.freed {
            a.allocated - a.freed
        } else {
            0
        },
        if a.allocations >= a.frees {
            a.allocations - a.frees
        } else {
            0
        },
    )
}

/// Freeing a recorded allocation undoes it: the pointer leaves the profile
/// as it came, the stack's live bytes and objects are back where they were,
/// and no other stack is touched.
pub proof fn lemma_free_undoes_allocation(
    a: PprofAlloc,
    v: TrackingView,
    ptr: usize,
    size: usize,
    t: Seq<u64>,
    reset: i64,
    fresh: i64,
    free_size: usize,
)
    requires
        a.pprof,
        alloc_recorded(a, v, size, reset),
        alloc_fits(v.tables, size, t),
        totals_of(v.tables.traces, t).freed + size <= u64::MAX,
        totals_of(v.tables.traces, t).frees + 1 <= u64::MAX,
    ensures
        ({
            let (a1, v1) = alloc_step(a, v, ptr, size, t, reset, fresh);
            let (a2, v2) = free_step(a1, v1, ptr, free_size);
            &&& free_found(a1, v1, ptr)
            &&& v1.tables.pointers[ptr] == (size, t)
            &&& free_ok(a1, v1, ptr)
            &&& v2.tables.pointers == v.tables.pointers.remove(ptr)
            &&& in_use(totals_of(v2.tables.traces, t)) == in_use(totals_of(v.tables.traces, t))
            &&& forall|u: Seq<u64>|
                u != t ==> #[trigger] totals_of(v2.tables.traces, u) == totals_of(v.tables.traces, u)
        }),
{
    let (a1, v1) = alloc_step(a, v, ptr, size, t, reset, fresh);
    lemma_rate_resolution_stable(a, v.env);
    assert(rate_spec(a1, v1.env) == rate_spec(a, v.env));
    assert(v1.tables.pointers.remove(ptr) =~= v.tables.pointers.remove(ptr));
}

/// What the coarse counters report: the totals with the buffer flushed.
pub open spec fn reported(v: TrackingView) -> Allocations {
    flushed_into(v.global, v.local)
}

proof fn lemma_wrap_add_assoc(g: u64, l: int, s: int)
    requires
        0 <= l,
        0 <= s,
    ensures
        wrap_add_u64(g as int, l + s) == wrap_add_u64(wrap_add_u64(g as int, l) as int, s),
        wrap_add_u64(wrap_add_u64(g as int, l) as int, 0) == wrap_add_u64(g as int, l),
{
    let m: int = 0x1_0000_0000_0000_0000;
    let x: int = g + l;
    vstd::arithmetic::div_mod::lemma_mod_pos_bound(x, m);
    vstd::arithmetic::div_mod::lemma_mod_pos_bound(x + s, m);
    vstd::arithmetic::div_mod::lemma_mod_pos_bound(s + x % m, m);
    vstd::arithmetic::div_mod::lemma_add_mod_noop_right(s, x, m);
    vstd::arithmetic::div_mod::lemma_mod_twice(x, m);
    assert(s + x == x + s);
    assert(x % m + s == s + x % m);
}

/// Buffering loses no count: once an allocation is counted, the counters
/// report `size` more bytes and one more allocation (modulo `2^64`, as the
/// process totals wrap), as long as the buffer does not saturate.
pub proof fn lemma_counted_allocation_is_reported(v: TrackingView, size: usize)
    requires
        v.local.allocated + size <= u64::MAX,
        v.local.allocations + 1 <= u64::MAX,
    ensures
        ({
            let c = count_alloc(v, size, true);
            let r = flushed_into(c.1, c.0);
            &&& r.allocated == wrap_add_u64(reported(v).allocated as int, size as int)
            &&& r.allocations == wrap_add_u64(reported(v).allocations as int, 1)
            &&& r.freed == reported(v).freed
            &&& r.frees == reported(v).frees
        }),
{
    lemma_wrap_add_assoc(v.global.allocated, v.local.allocated as int, size as int);
    lemma_wrap_add_assoc(v.global.allocations, v.local.allocations as int, 1);
    lemma_wrap_add_assoc(v.global.freed, v.local.freed as int, 0);
    lemma_wrap_add_assoc(v.global.frees, v.local.frees as int, 0);
    lemma_wrap_add_assoc(wrap_add_u64(v.global.allocated as int, v.local.allocated + size), 0, 0);
}

/// Buffering loses no count of frees either: once a free is counted, the
/// counters report `size` more freed bytes and one more free (modulo
/// `2^64`), as long as the buffer does not saturate.
pub proof fn lemma_counted_free_is_reported(v: TrackingView, size: usize)
    requires
        v.local.freed + size <= u64::MAX,
        v.local.frees + 1 <= u64::MAX,
    ensures
        ({
            let c = count_free(v, size, true);
            let r = flushed_into(c.1, c.0);
            &&& r.freed == wrap_add_u64(reported(v).freed as int, size as int)
            &&& r.frees == wrap_add_u64(reported(v).frees as int, 1)
            &&& r.allocated == reported(v).allocated
            &&& r.allocations == reported(v).allocations
        }),
{
    lemma_wrap_add_assoc(v.global.freed, v.local.freed as int, size as int);
    lemma_wrap_add_assoc(v.global.frees, v.local.frees as int, 1);
    lemma_wrap_add_assoc(v.global.allocated, v.local.allocated as int, 0);
    lemma_wrap_add_assoc(v.global.allocations, v.local.allocations as int, 0);
}

impl PprofAlloc {
    /// Completes a reallocation of the `old_size` bytes at `old_ptr` whose
    /// profile record (if any) was taken out before the block moved. When
    /// it succeeded (`new_ptr` not zero) the old block counts as freed and
    /// the new one as allocated; when it failed, the record goes back to
    /// `old_ptr`.
    pub fn finish_reallocation(
        &self,
        state: &mut TrackingState,
        old_ptr: usize,
        old_size: usize,
        record: Option<AllocationRecord>,
        new_ptr: usize,
        new_size: usize,
        sample_rate: Option<usize>,
        track_stats: bool,
        trace: Vec<u64>,
        reset: i64,
        fresh: i64,
    )
        requires
            old(state).wf(),
            new_ptr != 0 ==> (record matches Some(rec) ==> free_fits(
                old(state).tables@,
                rec.size,
                rec.trace@,
            )),
            new_ptr != 0 ==> (sample_rate matches Some(rate) ==> (sampled_spec(
                old(state).clock,
                new_size,
                rate,
                reset,
            ) ==> alloc_fits(
                match record {
                    Some(rec) => free_spec(old(state).tables@, rec.size, rec.trace@),
                    None => old(state).tables@,
                },
                new_size,
                trace@,
            ))),
        ensures
            final(state).wf(),
            new_ptr == 0 ==> final(state)@ == (match record {
                Some(rec) => TrackingView {
                    tables: ProfileView {
                        pointers: old(state)@.tables.pointers.insert(old_ptr, rec@),
                        traces: old(state)@.tables.traces,
                    },
                    ..old(state)@
                },
                None => old(state)@,
            }),
            new_ptr != 0 ==> ({
                let freed = match record {
                    Some(rec) => rec.size,
                    None => old_size,
                };
                let c1 = count_free(old(state)@, freed, track_stats);
                let v1 = TrackingView {
                    tables: match record {
                        Some(rec) => free_spec(old(state).tables@, rec.size, rec.trace@),
                        None => old(state).tables@,
                    },
                    local: c1.0,
                    global: c1.1,
                    ..old(state)@
                };
                let c2 = count_alloc(v1, new_size, track_stats);
                final(state)@ == match sample_rate {
                    Some(rate) => TrackingView {
                        tables: if sampled_spec(v1.clock, new_size, rate, reset) {
                            alloc_spec(v1.tables, new_ptr, new_size, trace@)
                        } else {
                            v1.tables
                        },
                        clock: clock_after(v1.clock, new_size, rate, reset, fresh),
                        local: c2.0,
                        global: c2.1,
                        ..v1
                    },
                    None => TrackingView { local: c2.0, global: c2.1, ..v1 },
                }
            }),
    {
        if new_ptr != 0 {
            self.finish_deallocation(state, record, old_size, track_stats);
            self.record_tracked_allocation(
                state,
                new_ptr,
                new_size,
                sample_rate,
                track_stats,
                trace,
                reset,
                fresh,
            );
        } else {
            match record {
                Some(rec) => {
                    self.restore_allocation_record(state, old_ptr, rec);
                },
                None => {},
            }
        }
    }
}

impl Default for PprofAlloc {
    fn default() -> (r: PprofAlloc)
        ensures
            r == initial_config(),
    {
        PprofAlloc::new()
    }
}

/// The coarse process-wide allocation counters, with the buffer flushed.
///
/// These counters move only when the wrapper counts allocations (see
/// [`PprofAlloc::with_stats`]).
pub fn allocation_stats(state: &mut TrackingState) -> (r: Allocations)
    ensures
        r == flushed_into(old(state).global, old(state).local),
        final(state)@ == (TrackingView { local: zero_local(), global: r, ..old(state)@ }),
{
    state.allocation_stats()
}

/// `ceil(log2(sample_rate))`: jemalloc's sample period exponent for a byte
/// rate, at most 63; `None` for a rate of zero (profiling off).
pub open spec fn lg_sample_spec(sample_rate: usize) -> Option<u32> {
    if sample_rate == 0 {
        None
    } else {
        Some(if bit_length((sample_rate - 1) as nat) <= 63 {
            bit_length((sample_rate - 1) as nat) as u32
        } else {
            63u32
        })
    }
}

/// The number of bits needed to write `n`.
pub open spec fn bit_length(n: nat) -> nat
    decreases n,
{
    if n == 0 {
        0
    } else {
        1 + bit_length(n / 2)
    }
}

proof fn lemma_bit_length_bounds(n: nat)
    ensures
        n < vstd::arithmetic::power2::pow2(bit_length(n)),
        n > 0 ==> vstd::arithmetic::power2::pow2((bit_length(n) - 1) as nat) <= n,
    decreases n,
{
    vstd::arithmetic::power2::lemma2_to64();
    if n > 0 {
        lemma_bit_length_bounds(n / 2);
        vstd::arithmetic::power2::lemma_pow2_unfold(bit_length(n));
        if n / 2 > 0 {
            vstd::arithmetic::power2::lemma_pow2_unfold((bit_length(n) - 1) as nat);
        }
    }
}

/// The sample period jemalloc is given is the power of two at or just above
/// the byte rate: `2^(lg - 1) < rate <= 2^lg`, for every rate up to `2^63`.
pub proof fn lemma_lg_sample_brackets_rate(sample_rate: usize)
    requires
        0 < sample_rate <= 0x8000_0000_0000_0000,
    ensures
        lg_sample_spec(sample_rate) matches Some(lg) && sample_rate <= vstd::arithmetic::power2::pow2(
            lg as nat,
        ) && (lg > 0 ==> vstd::arithmetic::power2::pow2((lg - 1) as nat) < sample_rate),
{
    let n = (sample_rate - 1) as nat;
    lemma_bit_length_bounds(n);
    vstd::arithmetic::power2::lemma2_to64_rest();
    lemma_bit_length_below(n, 63);
}

/// jemalloc's `lg_prof_sample` for a byte sample rate: the exponent of the
/// smallest power of two at least `sample_rate`, capped at 63.
pub fn jemalloc_lg_prof_sample(sample_rate: usize) -> (r: Option<u32>)
    ensures
        r == lg_sample_spec(sample_rate),
{
    if sample_rate == 0 {
        return None;
    }
    let mut n: usize = sample_rate - 1;
    let mut bits: u32 = 0;
    proof {
        vstd::arithmetic::power2::lemma2_to64();
        lemma_bit_length_below(n as nat, 64);
    }
    while n > 0
        invariant
            bits as nat + bit_length(n as nat) == bit_length((sample_rate - 1) as nat),
            bit_length((sample_rate - 1) as nat) <= 64,
        decreases n,
    {
        assert(bit_length(n as nat) == 1 + bit_length((n / 2) as nat));
        n = n / 2;
        bits = bits + 1;
    }
    if bits <= 63 {
        Some(bits)
    } else {
        Some(63)
    }
}

proof fn lemma_bit_length_below(n: nat, k: nat)
    requires
        n < vstd::arithmetic::power2::pow2(k),
    ensures
        bit_length(n) <= k,
    decreases k,
{
    if n > 0 {
        if k == 0 {
            vstd::arithmetic::power2::lemma2_to64();
        } else {
            vstd::arithmetic::power2::lemma_pow2_unfold(k);
            lemma_bit_length_below(n / 2, (k - 1) as nat);
        }
    }
}

/// Whether native jemalloc profiling is compiled in and can be configured:
/// never in this build, so configuration from the environment has nothing
/// to apply.
pub fn configure() -> (r: Result<(), String>)
    ensures
        r is Ok,
{
    Ok(())
}

/// As [`configure`], with an explicit fallback allocator: nothing to apply
/// in this build.
pub fn configure_with_default(default: Allocator) -> (r: Result<(), String>)
    ensures
        r is Ok,
{
    Ok(())
}

/// The error for a profile asked of jemalloc's native profiler, which this
/// build does not include.
pub open spec fn jemalloc_pprof_error() -> Seq<char> {
    "jemalloc native profiling support is not compiled in; enable the `allocator-jemalloc` feature"@
}

/// A heap profile from jemalloc's native profiler: always the error that
/// support is not compiled in.
pub fn generate_jemalloc_pprof() -> (r: Result<Vec<u8>, String>)
    ensures
        r matches Err(e) && e@ == jemalloc_pprof_error(),
{
    Err(
        String::from_str(
            "jemalloc native profiling support is not compiled in; enable the `allocator-jemalloc` feature",
        ),
    )
}

/// Best-effort snapshot of allocation and memory state for the current
/// process.
#[derive(Clone, Debug)]
pub struct MemorySnapshot {
    /// Wall-clock capture time as milliseconds since the Unix epoch.
    pub captured_at_unix_ms: u64,
    /// Stack capture implementation compiled into this build.
    pub capture_mode: CaptureMode,
    /// Coarse process-wide counters from [`allocation_stats`].
    pub allocation_stats: Allocations,
    /// Summary of recorded pprof stack-attributed allocation data.
    pub pprof: PprofSummary,
    /// Active allocator identity and allocator-specific memory stats.
    pub allocator: AllocatorSnapshot,
    /// cgroup v2 memory stats for this process, when available.
    pub cgroup: Option<MemoryStat>,
    /// `/proc/self/smaps_rollup` memory stats for this process, when available.
    pub smaps: Option<ProcessStats>,
}

/// Assembles a memory snapshot taken at `captured_at_unix_ms` by a build
/// that walks frame pointers when `frame_pointer_walk` holds: the coarse
/// counters (flushed), the profile summary, and the probes' results as the
/// caller took them.
pub fn snapshot(
    state: &mut TrackingState,
    frame_pointer_walk: bool,
    captured_at_unix_ms: u64,
    pprof: PprofSummary,
    allocator: AllocatorSnapshot,
    cgroup: Option<MemoryStat>,
    smaps: Option<ProcessStats>,
) -> (r: MemorySnapshot)
    ensures
        r.captured_at_unix_ms == captured_at_unix_ms,
        r.capture_mode == capture_mode_of(frame_pointer_walk),
        r.allocation_stats == flushed_into(old(state).global, old(state).local),
        final(state)@ == (TrackingView { local: zero_local(), global: r.allocation_stats, ..old(state)@ }),
        r.pprof == pprof,
        r.allocator == allocator,
        r.cgroup == cgroup,
        r.smaps == smaps,
{
    let stats = allocation_stats(state);
    MemorySnapshot {
        captured_at_unix_ms,
        capture_mode: capture_mode(frame_pointer_walk),
        allocation_stats: stats,
        pprof,
        allocator,
        cgroup,
        smaps,
    }
}

} // verus!
