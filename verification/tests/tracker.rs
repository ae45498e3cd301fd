use pprof_alloc::env::PprofBackend;
use pprof_alloc::stats::Allocations;
use pprof_alloc::tracker::{
    checked_summary, exact_heap_sample, jemalloc_lg_prof_sample, saturating_i64, summarize,
    Environment, HeapSampleValues, LocalAllocationStats, TrackingMode, STATS_FLUSH_EVENTS,
};
use pprof_alloc::{
    allocation_stats, capture_mode, configure, generate_jemalloc_pprof, pprof_summary, snapshot,
    Allocator, PprofAlloc, PprofSummary, TrackingState, DEFAULT_PPROF_SAMPLE_RATE,
};

fn fresh_state() -> TrackingState {
    TrackingState::new(Environment::unset())
}

#[test]
fn allocation_stats_compute_in_use_values() {
    let stats = Allocations {
        allocated: 4096,
        freed: 1024,
        allocations: 4,
        frees: 1,
    };

    assert_eq!(stats.in_use_bytes(), 3072);
    assert_eq!(stats.in_use_allocations(), 3);
}

#[test]
fn sample_rate_one_records_every_profile_allocation() {
    let mut state = fresh_state();

    let mut alloc = PprofAlloc::new().with_pprof_sample_rate(1);
    alloc.record_allocation(&mut state, 0x1000, 128, vec![0x10, 0x20], 0, 0);
    alloc.record_allocation(&mut state, 0x2000, 64, vec![0x11, 0x20], 0, 0);

    assert_eq!(state.current_pprof_sample_rate(), 1);
    assert_eq!(state.tables.pointer_count(), 2);
    assert_eq!(pprof_summary(&state).unwrap().alloc_space_bytes, 192);
    assert_eq!(pprof_summary(&state).unwrap().alloc_objects, 2);
}

#[test]
fn sample_rate_zero_disables_profile_allocation_records() {
    let mut state = fresh_state();

    let mut alloc = PprofAlloc::new().with_pprof_sample_rate(0).with_stats();
    alloc.record_allocation(&mut state, 0x1000, 128, vec![0x10], 0, 0);
    alloc.record_deallocation(&mut state, 0x1000, 128);

    assert_eq!(state.current_pprof_sample_rate(), 0);
    assert_eq!(state.tables.pointer_count(), 0);
    assert_eq!(state.tables.trace_count(), 0);
    assert_eq!(allocation_stats(&mut state).allocated, 128);
    assert_eq!(allocation_stats(&mut state).freed, 128);
}

#[test]
fn coarse_stats_track_allocations_and_frees() {
    let mut state = fresh_state();

    let mut alloc = PprofAlloc::new().with_stats();
    alloc.record_allocation(&mut state, 0x5000, 48, vec![0x10], 0, 0);
    alloc.record_deallocation(&mut state, 0x5000, 48);

    assert_eq!(
        allocation_stats(&mut state),
        Allocations {
            allocated: 48,
            freed: 48,
            allocations: 1,
            frees: 1,
        }
    );
}

#[test]
fn deallocation_updates_live_profile_bytes() {
    let mut state = fresh_state();

    let mut alloc = PprofAlloc::new().with_pprof().with_stats();
    let trace = vec![0x1234, 0x5678];

    alloc.record_allocation_with_trace(&mut state, 0x1000, 128, trace.clone());
    alloc.record_allocation_with_trace(&mut state, 0x2000, 64, trace.clone());
    alloc.record_deallocation(&mut state, 0x1000, 128);

    let trace_stats = state.tables.trace_totals(&trace).unwrap();
    assert_eq!(trace_stats.allocated, 192);
    assert_eq!(trace_stats.freed, 128);
    assert_eq!(trace_stats.allocations, 2);
    assert_eq!(trace_stats.frees, 1);
    assert_eq!(trace_stats.in_use_bytes(), 64);
    assert!(state.tables.contains_pointer(0x2000));
    assert!(!state.tables.contains_pointer(0x1000));
}

#[test]
fn reallocation_updates_live_bytes_and_pointer_ownership() {
    let mut state = fresh_state();

    let mut alloc = PprofAlloc::new().with_pprof_sample_rate(1);
    alloc.record_allocation_with_trace(&mut state, 0x3000, 32, vec![0x1, 0x2]);
    alloc.record_reallocation(&mut state, 0x3000, 32, 0x4000, 96, vec![0x3, 0x2], 0, 0);

    let total_live_bytes: u64 = state
        .tables
        .entries()
        .iter()
        .map(|entry| entry.1.in_use_bytes())
        .sum();
    assert_eq!(total_live_bytes, 96);
    assert_eq!(state.tables.pointer_record(0x4000).unwrap().size, 96);
    assert!(!state.tables.contains_pointer(0x3000));
}

#[test]
fn snapshot_reports_current_pprof_summary() {
    let mut state = fresh_state();
    state.current_rate = 1;

    let mut alloc = PprofAlloc::new().with_pprof();
    let trace = vec![0xabc, 0xdef];

    alloc.record_allocation_with_trace(&mut state, 0x1000, 128, trace.clone());
    alloc.record_allocation_with_trace(&mut state, 0x2000, 64, trace);
    alloc.record_deallocation(&mut state, 0x1000, 128);

    let summary = pprof_summary(&state).unwrap();
    let allocator = pprof_alloc::allocator::snapshot_for(
        pprof_alloc::allocator::AllocatorKind::Undeclared,
        Err(String::new()),
    );
    let snapshot = snapshot(&mut state, true, 0, summary, allocator, None, None);
    assert_eq!(snapshot.capture_mode, capture_mode(true));
    assert_eq!(
        snapshot.pprof,
        PprofSummary {
            total_stacks: 1,
            live_stacks: 1,
            alloc_space_bytes: 192,
            inuse_space_bytes: 64,
            alloc_objects: 2,
            inuse_objects: 1,
        }
    );
}

#[test]
fn jemalloc_sample_rate_converts_to_log2_period() {
    assert_eq!(jemalloc_lg_prof_sample(0), None);
    assert_eq!(jemalloc_lg_prof_sample(1), Some(0));
    assert_eq!(jemalloc_lg_prof_sample(2), Some(1));
    assert_eq!(jemalloc_lg_prof_sample(3), Some(2));
    assert_eq!(jemalloc_lg_prof_sample(DEFAULT_PPROF_SAMPLE_RATE), Some(19));
}

#[test]
fn lg_sample_is_capped_at_63() {
    assert_eq!(jemalloc_lg_prof_sample(usize::MAX), Some(63));
    assert_eq!(jemalloc_lg_prof_sample(1 << 40), Some(40));
    assert_eq!(jemalloc_lg_prof_sample((1 << 40) + 1), Some(41));
}

#[test]
fn free_after_allocation_restores_live_bytes_and_ownership() {
    let mut state = fresh_state();
    let mut alloc = PprofAlloc::new().with_pprof_sample_rate(1);
    let trace = vec![7, 8, 9];
    alloc.record_allocation(&mut state, 0x9000, 40, trace.clone(), 0, 0);
    let before = state.tables.trace_totals(&trace).unwrap();
    alloc.record_allocation(&mut state, 0xa000, 24, trace.clone(), 0, 0);
    alloc.record_deallocation(&mut state, 0xa000, 24);
    let after = state.tables.trace_totals(&trace).unwrap();
    assert_eq!(after.in_use_bytes(), before.in_use_bytes());
    assert_eq!(after.in_use_allocations(), before.in_use_allocations());
    assert!(!state.tables.contains_pointer(0xa000));
    assert!(state.tables.contains_pointer(0x9000));
}

#[test]
fn zero_sized_allocations_are_not_sampled() {
    let mut state = fresh_state();
    let mut alloc = PprofAlloc::new().with_pprof_sample_rate(1);
    alloc.record_allocation(&mut state, 0x1000, 0, vec![1], 0, 0);
    assert_eq!(state.tables.pointer_count(), 0);
    assert_eq!(state.tables.trace_count(), 0);
}

#[test]
fn tracking_mode_follows_configuration() {
    let mut state = fresh_state();
    assert_eq!(PprofAlloc::new().tracking_mode(&mut state), TrackingMode::System);
    assert_eq!(PprofAlloc::new().with_stats().tracking_mode(&mut state), TrackingMode::Stats);
    assert_eq!(
        PprofAlloc::new().with_pprof().tracking_mode(&mut state),
        TrackingMode::Pprof
    );
    assert_eq!(
        PprofAlloc::new().with_pprof().with_stats().tracking_mode(&mut state),
        TrackingMode::PprofStats
    );
    assert_eq!(
        PprofAlloc::new().with_pprof_sample_rate(0).tracking_mode(&mut state),
        TrackingMode::System
    );
    assert_eq!(
        PprofAlloc::new().with_default(Allocator::Mimalloc).tracking_mode(&mut state),
        TrackingMode::Mimalloc
    );
    for mode in [
        TrackingMode::Uninitialized,
        TrackingMode::System,
        TrackingMode::Jemalloc,
        TrackingMode::Mimalloc,
        TrackingMode::Stats,
        TrackingMode::Pprof,
        TrackingMode::PprofStats,
    ] {
        assert_eq!(TrackingMode::from_u8(mode.as_u8()), mode);
    }
}

#[test]
fn env_sample_rate_is_read_once() {
    let env = Environment {
        allocator_override: None,
        pprof_backend: PprofBackend::Native,
        sample_rate: Some(1),
    };
    let mut alloc = PprofAlloc::new().with_pprof_sample_rate_from_env(DEFAULT_PPROF_SAMPLE_RATE);
    assert_eq!(alloc.effective_pprof_sample_rate(&env), 1);
    assert_eq!(alloc.effective_pprof_sample_rate(&Environment::unset()), 1);

    let mut unset = PprofAlloc::new().with_pprof_sample_rate_from_env(4096);
    assert_eq!(unset.effective_pprof_sample_rate(&Environment::unset()), 4096);
}

#[test]
fn local_counters_flush_after_enough_events() {
    let mut local = LocalAllocationStats::new();
    let mut global = Allocations::default();
    for _ in 0..(STATS_FLUSH_EVENTS - 1) {
        local.record_allocation(&mut global, 1);
    }
    assert_eq!(global.allocations, 0);
    local.record_allocation(&mut global, 1);
    assert_eq!(global.allocations, STATS_FLUSH_EVENTS);
    assert_eq!(global.allocated, STATS_FLUSH_EVENTS);
    assert_eq!(local, LocalAllocationStats::new());

    let mut big = LocalAllocationStats::new();
    let mut g2 = Allocations::default();
    big.record_allocation(&mut g2, 2 * 1024 * 1024);
    assert_eq!(g2.allocated, 2 * 1024 * 1024);
    assert_eq!(g2.allocations, 1);
}

#[test]
fn exact_heap_samples_need_no_scaling() {
    assert_eq!(exact_heap_sample(0, 100, 512), Some((0, 0)));
    assert_eq!(exact_heap_sample(3, 0, 512), Some((0, 0)));
    assert_eq!(exact_heap_sample(3, 100, 1), Some((3, 100)));
    assert_eq!(exact_heap_sample(3, 100, 0), Some((3, 100)));
    assert_eq!(exact_heap_sample(3, 100, 512), None);
    assert_eq!(exact_heap_sample(u64::MAX, 5, 1), Some((i64::MAX, 5)));
    assert_eq!(saturating_i64(u64::MAX), i64::MAX);
    let stats = Allocations {
        allocated: 300,
        freed: 100,
        allocations: 3,
        frees: 1,
    };
    assert_eq!(
        HeapSampleValues::from_allocations(&stats, 1),
        Some(HeapSampleValues {
            alloc_objects: 3,
            alloc_space: 300,
            inuse_objects: 2,
            inuse_space: 200,
        })
    );
}

#[test]
fn summaries_add_up_stacks() {
    let vals = vec![
        HeapSampleValues {
            alloc_objects: 2,
            alloc_space: 100,
            inuse_objects: 1,
            inuse_space: 50,
        },
        HeapSampleValues {
            alloc_objects: 1,
            alloc_space: 10,
            inuse_objects: 0,
            inuse_space: 0,
        },
        HeapSampleValues {
            alloc_objects: -5,
            alloc_space: -5,
            inuse_objects: -5,
            inuse_space: -5,
        },
    ];
    let expected = PprofSummary {
        total_stacks: 3,
        live_stacks: 1,
        alloc_space_bytes: 110,
        inuse_space_bytes: 50,
        alloc_objects: 3,
        inuse_objects: 1,
    };
    assert_eq!(summarize(&vals), expected);
    assert_eq!(checked_summary(&vals), Some(expected));
    let huge = vec![
        HeapSampleValues {
            alloc_objects: i64::MAX,
            alloc_space: i64::MAX,
            inuse_objects: 0,
            inuse_space: 0,
        };
        3
    ];
    assert_eq!(checked_summary(&huge), None);
}

#[test]
fn native_jemalloc_profiles_are_not_compiled_in() {
    assert!(configure().is_ok());
    assert_eq!(
        generate_jemalloc_pprof().unwrap_err(),
        "jemalloc native profiling support is not compiled in; enable the `allocator-jemalloc` feature"
    );
}

#[test]
fn env_sample_rate_is_read_lazily() {
    let env = Environment {
        allocator_override: None,
        pprof_backend: PprofBackend::Native,
        sample_rate: Some(1),
    };
    let mut state = TrackingState::new(env);
    let mut alloc = PprofAlloc::new().with_pprof_sample_rate_from_env(DEFAULT_PPROF_SAMPLE_RATE);
    alloc.record_allocation(&mut state, 0x1000, 128, vec![0x10], 0, 0);

    assert_eq!(state.current_pprof_sample_rate(), 1);
    assert_eq!(state.tables.pointer_count(), 1);
}

#[test]
fn env_sample_rate_uses_configured_default_when_unset() {
    let mut state = fresh_state();
    let mut alloc = PprofAlloc::new().with_pprof_sample_rate_from_env(1);
    alloc.record_allocation(&mut state, 0x1000, 128, vec![0x10], 0, 0);

    assert_eq!(state.current_pprof_sample_rate(), 1);
    assert_eq!(state.tables.pointer_count(), 1);
}

#[test]
fn unscaled_summary_adds_up_every_stack() {
    let mut state = fresh_state();
    state.current_rate = 1;
    let mut alloc = PprofAlloc::new().with_pprof();
    alloc.record_allocation_with_trace(&mut state, 0x1000, 100, vec![0x1]);
    alloc.record_allocation_with_trace(&mut state, 0x2000, 30, vec![0x2]);
    alloc.record_allocation_with_trace(&mut state, 0x3000, 20, vec![0x2]);
    alloc.record_deallocation(&mut state, 0x1000, 100);
    assert_eq!(
        pprof_summary(&state).unwrap(),
        PprofSummary {
            total_stacks: 2,
            live_stacks: 1,
            alloc_space_bytes: 150,
            inuse_space_bytes: 50,
            alloc_objects: 3,
            inuse_objects: 2,
        }
    );
}

#[test]
fn env_sample_rate_of_usize_max_is_kept() {
    let env = |rate: usize| Environment {
        allocator_override: None,
        pprof_backend: PprofBackend::Native,
        sample_rate: Some(rate),
    };
    let mut alloc = PprofAlloc::new().with_pprof_sample_rate_from_env(DEFAULT_PPROF_SAMPLE_RATE);
    assert_eq!(alloc.effective_pprof_sample_rate(&env(usize::MAX)), usize::MAX);
    assert_eq!(alloc.effective_pprof_sample_rate(&env(5)), usize::MAX);
    assert_eq!(alloc.effective_pprof_sample_rate(&Environment::unset()), usize::MAX);
}

#[test]
fn unsampled_frees_and_reallocations_count_only_with_stats() {
    let mut state = fresh_state();
    state.record_unsampled_deallocation(64, false);
    assert_eq!((state.local.freed, state.local.frees), (0, 0));
    state.record_unsampled_deallocation(64, true);
    assert_eq!(state.local.freed, 64);
    assert_eq!(state.local.frees, 1);
    state.record_unsampled_reallocation(64, 0, 128, true);
    assert_eq!(state.local.allocated, 0);
    state.record_unsampled_reallocation(64, 0x1000, 128, true);
    assert_eq!(state.local.freed, 128);
    assert_eq!(state.local.allocated, 128);
    assert_eq!(state.local.allocations, 1);
}
