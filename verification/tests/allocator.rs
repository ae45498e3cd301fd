use pprof_alloc::allocator::{
    collect, collect_for, configure, configured, snapshot, AllocatorComparisonStats,
    AllocatorKind, CollectAction, ConfiguredAllocator, GlibcStats, MimallocStats,
};

#[test]
fn snapshot_reports_undeclared_allocator_as_error() {
    let mut cell = ConfiguredAllocator::new();
    configure(&mut cell, AllocatorKind::Undeclared);

    let snapshot = snapshot(&cell, Err(String::from("unused")));
    assert_eq!(snapshot.kind, AllocatorKind::Undeclared);
    assert!(snapshot.comparable.value.is_none());
    assert!(snapshot.specific.value.is_none());
    assert_eq!(
        snapshot.comparable.error.as_deref(),
        Some(
            "allocator kind is undeclared; add declare_allocator_kind!(...) next to #[global_allocator]"
        )
    );
}

#[test]
fn collect_reports_undeclared_allocator_as_error() {
    let mut cell = ConfiguredAllocator::new();
    configure(&mut cell, AllocatorKind::Undeclared);

    let err = collect(&cell).expect_err("undeclared allocator should fail collect");
    assert_eq!(
        err.message(),
        "allocator kind is undeclared; add declare_allocator_kind!(...) next to #[global_allocator]"
    );
}

#[test]
fn glibc_comparison_stats_use_in_use_and_free_bytes() {
    let comparable = AllocatorComparisonStats::from(&GlibcStats {
        system_max: 8192,
        system_current: 4096,
        free_bytes: 1024,
        mmap_current: 512,
        in_use_bytes: 3584,
        heaps: 3,
    });

    assert_eq!(comparable.allocated_bytes, Some(3584));
    assert_eq!(comparable.mapped_bytes, Some(4608));
    assert_eq!(comparable.retained_bytes, Some(1024));
    assert_eq!(comparable.allocator_structures, Some(3));
}

#[test]
fn glibc_collect_succeeds() {
    collect_for(AllocatorKind::Glibc).expect("glibc collection should succeed");
}

#[test]
fn mimalloc_comparison_stats_use_allocator_allocated_bytes() {
    let comparable = AllocatorComparisonStats::from(&MimallocStats {
        version: 1,
        allocated_current: 2048,
        allocated_peak: 4096,
        reserved_current: 8192,
        reserved_peak: 12288,
        committed_current: 4096,
        committed_peak: 6144,
        reset_current: 0,
        purged_current: 0,
        page_committed_current: 0,
        pages_current: 0,
        pages_abandoned_current: 0,
        segments_current: 0,
        segments_abandoned_current: 0,
        threads_current: 0,
        requested_current: 0,
        requested_peak: 0,
        process_rss_current: 3072,
        process_rss_peak: 6144,
        process_commit_current: 4096,
        process_commit_peak: 8192,
        page_faults: 0,
        arenas: 2,
    });

    assert_eq!(comparable.allocated_bytes, Some(2048));
    assert_eq!(comparable.committed_bytes, Some(4096));
    assert_eq!(comparable.allocator_structures, Some(2));
}

#[test]
fn configured_kind_reads_back_what_was_declared() {
    let mut cell = ConfiguredAllocator::new();
    assert_eq!(configured(&cell), AllocatorKind::Undeclared);
    for kind in [
        AllocatorKind::Glibc,
        AllocatorKind::Jemalloc,
        AllocatorKind::Mimalloc,
        AllocatorKind::Undeclared,
    ] {
        configure(&mut cell, kind);
        assert_eq!(configured(&cell), kind);
    }
}

#[test]
fn collect_reports_missing_allocator_support() {
    assert_eq!(collect_for(AllocatorKind::Glibc), Ok(CollectAction::TrimGlibc));
    assert!(collect_for(AllocatorKind::Jemalloc)
        .unwrap_err()
        .message()
        .contains("allocator-jemalloc"));
    assert!(collect_for(AllocatorKind::Mimalloc)
        .unwrap_err()
        .message()
        .contains("allocator-mimalloc"));
}

#[test]
fn allocator_kind_codes_round_trip() {
    for kind in [
        AllocatorKind::Undeclared,
        AllocatorKind::Glibc,
        AllocatorKind::Jemalloc,
        AllocatorKind::Mimalloc,
    ] {
        assert_eq!(AllocatorKind::from_u8(kind.as_u8()), kind);
    }
    assert_eq!(AllocatorKind::from_u8(200), AllocatorKind::Undeclared);
    assert_eq!(AllocatorKind::Glibc.as_str(), "glibc");
}

use pprof_alloc::allocator::{
    allocator_metrics, comparable_metrics, configured_metric, mimalloc_stats_from, snapshot_for,
    AllocatorError, MiStatCount, MimallocProcessInfo, MimallocRawStats,
};

fn count(current: i64, peak: i64) -> MiStatCount {
    MiStatCount {
        total: 0,
        peak,
        current,
    }
}

fn raw_stats(version: i32) -> MimallocRawStats {
    MimallocRawStats {
        version,
        pages: count(3, 4),
        reserved: count(8192, 12288),
        committed: count(4096, 6144),
        reset: count(-1, 0),
        purged: count(0, 0),
        page_committed: count(0, 0),
        pages_abandoned: count(0, 0),
        threads: count(2, 2),
        malloc_normal: count(1024, 3000),
        malloc_huge: count(1024, i64::MAX),
        malloc_requested: count(100, 200),
        segments: count(1, 1),
        segments_abandoned: count(0, 0),
        arena_count: 2,
    }
}

#[test]
fn mimalloc_figures_come_from_raw_statistics() {
    let process = MimallocProcessInfo {
        current_rss: 3072,
        peak_rss: 6144,
        current_commit: 4096,
        peak_commit: 8192,
        page_faults: 5,
    };
    let stats = mimalloc_stats_from(&raw_stats(1), &process).unwrap();
    assert_eq!(stats.version, 1);
    assert_eq!(stats.allocated_current, 2048);
    assert_eq!(stats.allocated_peak, i64::MAX as u64);
    assert_eq!(stats.reset_current, 0);
    assert_eq!(stats.threads_current, 2);
    assert_eq!(stats.process_rss_current, 3072);
    assert_eq!(stats.page_faults, 5);
    assert_eq!(stats.arenas, 2);
    assert_eq!(
        mimalloc_stats_from(&raw_stats(0), &process),
        Err(AllocatorError::MimallocStatsUnavailable)
    );
}

#[test]
fn allocator_metrics_skip_absent_figures() {
    assert_eq!(configured_metric(AllocatorKind::Undeclared).value, 0);
    assert_eq!(configured_metric(AllocatorKind::Glibc).value, 1);
    assert_eq!(configured_metric(AllocatorKind::Glibc).name, "allocator_configured");
    let comparable = AllocatorComparisonStats::from(&GlibcStats {
        system_max: 8192,
        system_current: 4096,
        free_bytes: 1024,
        mmap_current: 512,
        in_use_bytes: 3584,
        heaps: 3,
    });
    let metrics = comparable_metrics(&comparable);
    let names: Vec<&str> = metrics.iter().map(|m| m.name).collect();
    assert_eq!(
        names,
        vec![
            "allocator_allocated_bytes",
            "allocator_mapped_bytes",
            "allocator_retained_bytes",
            "allocator_structures"
        ]
    );
    assert_eq!(metrics[1].value, 4608);
}

#[test]
fn allocator_collector_exports_only_present_figures() {
    let undeclared = snapshot_for(AllocatorKind::Undeclared, Err(String::new()));
    let metrics = allocator_metrics(&undeclared);
    assert_eq!(metrics.len(), 1);
    assert_eq!(metrics[0].name, "allocator_configured");
    assert_eq!(metrics[0].value, 0);

    let mut declared = undeclared.clone();
    declared.kind = AllocatorKind::Glibc;
    declared.comparable.value = Some(AllocatorComparisonStats {
        allocated_bytes: Some(10),
        active_bytes: None,
        resident_bytes: None,
        mapped_bytes: Some(0),
        retained_bytes: None,
        metadata_bytes: None,
        committed_bytes: Some(7),
        allocator_structures: None,
    });
    let metrics = allocator_metrics(&declared);
    let pairs: Vec<(&str, u64)> = metrics.iter().map(|m| (m.name, m.value)).collect();
    assert_eq!(
        pairs,
        vec![
            ("allocator_configured", 1),
            ("allocator_allocated_bytes", 10),
            ("allocator_mapped_bytes", 0),
            ("allocator_committed_bytes", 7),
        ]
    );
    assert!(metrics.iter().all(|m| !m.counter));
}
