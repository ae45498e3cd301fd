use pprof_alloc::stats::cgroups::MemoryStat;
use pprof_alloc::stats::procmaps::{from_str, Device, Mapping, Permissions, SMap, VmFlags};
use pprof_alloc::stats::smaps::{parse_rollup, ProcessStats};

#[test]
fn parse_memory_stat_includes_non_heap_signals() {
    let input = "\
anon 4096
inactive_anon 1024
active_anon 3072
file 8192
file_mapped 2048
active_file 4096
inactive_file 4096
shmem 512
kernel 1024
kernel_stack 128
pagetables 256
percpu 64
sock 32
slab 768
slab_reclaimable 512
slab_unreclaimable 256
pgfault 100
pgmajfault 3
workingset_refault_anon 7
workingset_refault_file 11
workingset_activate_anon 5
workingset_activate_file 13
workingset_restore_anon 2
workingset_restore_file 17";

    let stats = MemoryStat::parse(input).expect("memory.stat should parse");
    assert_eq!(stats.anon, 4096);
    assert_eq!(stats.file_mapped, 2048);
    assert_eq!(stats.shmem, 512);
    assert_eq!(stats.slab_reclaimable, 512);
    assert_eq!(stats.slab_unreclaimable, 256);
    assert_eq!(stats.pgfault, 100);
    assert_eq!(stats.pgmajfault, 3);
    assert_eq!(stats.workingset_refault_file, 11);
    assert_eq!(stats.workingset_restore_file, 17);
}

#[test]
fn test_vmflags_from_str() {
    // No flags enabled should parse correctly
    assert_eq!(VmFlags::from_str(""), Default::default());

    // Unknown flags should be ignored
    assert_eq!(VmFlags::from_str("a b c d"), Default::default());

    // Check enabling some subset of flags
    let mut flags: VmFlags = Default::default();
    flags.rd = true;
    flags.de = true;
    flags.uw = true;
    assert_eq!(VmFlags::from_str("rd de uw"), flags);

    // Check that the order of flags doesn't matter
    let mut flags: VmFlags = Default::default();
    flags.rd = true;
    flags.de = true;
    flags.uw = true;
    assert_eq!(VmFlags::from_str("uw rd de"), flags);
}

#[test]
fn test_mapping_from_str() {
    assert_eq!(Mapping::from_str(""), None);
    assert_eq!(Mapping::from_str("    \n   "), None);
    let mut perms: Permissions = Default::default();
    perms.read(true);
    perms.write(true);
    perms.private(true);
    assert_eq!(
        Mapping::from_str("00e24000-011f7000 rw-p 00000000 00:00 0           [heap]"),
        Some(Mapping {
            start: 0x00e24000,
            end: 0x011f7000,
            perms,
            offset: 0,
            device: Device { major: 0, minor: 0 },
            inode: 0,
            pathname: Some("[heap]".to_string())
        })
    );

    let mut perms: Permissions = Default::default();
    perms.read(true);
    perms.write(true);
    perms.private(true);

    assert_eq!(
        Mapping::from_str("35b1a21000-35b1a22000 rw-p abcd ff:10 0"),
        Some(Mapping {
            start: 0x35b1a21000,
            end: 0x35b1a22000,
            perms,
            offset: 0xabcd,
            device: Device {
                major: 0xff,
                minor: 0x10
            },
            inode: 0,
            pathname: None
        })
    );
}

#[test]
fn test_smaps_from_str() {
    let txt = "\
6036e81d0000-6036e84bd000 rw-p 00000000 00:00 0                          [heap]
Size:               2996 kB
KernelPageSize:        4 kB
MMUPageSize:           4 kB
Rss:                2796 kB
Pss:                2796 kB
Pss_Dirty:          2796 kB
Shared_Clean:          0 kB
Shared_Dirty:          0 kB
Private_Clean:         0 kB
Private_Dirty:      2796 kB
Referenced:         2796 kB
Anonymous:          2796 kB
KSM:                   0 kB
LazyFree:              0 kB
AnonHugePages:         0 kB
ShmemPmdMapped:        0 kB
FilePmdMapped:         0 kB
Shared_Hugetlb:        0 kB
Private_Hugetlb:       0 kB
Swap:                  0 kB
SwapPss:               0 kB
Locked:                0 kB
THPeligible:           1
ProtectionKey:         0
VmFlags: rd wr mr mw me ac sd
76be15f03000-76be160ed000 rw-p 00000000 00:00 0
Rss:                1960 kB
Swap:                  0 kB
Locked:                0 kB
FilePmdMapped:         0 kB
Referenced:         1960 kB
Private_Dirty:      1960 kB
KernelPageSize:        4 kB
Private_Clean:         0 kB
ProtectionKey:         0
ShmemPmdMapped:        0 kB
Anonymous:          1960 kB
Size:               1960 kB
Shared_Dirty:          0 kB
Shared_Clean:          0 kB
Pss:                1960 kB
MMUPageSize:           4 kB
VmFlags:
";

    let mut perms: Permissions = Default::default();
    perms.read = true;
    perms.write = true;
    perms.private = true;

    assert_eq!(
        from_str(txt),
        Some(vec![
            SMap {
                mapping: Mapping {
                    start: 0x6036e81d0000,
                    end: 0x6036e84bd000,
                    perms: Permissions { ..perms },
                    offset: 0,
                    inode: 0,
                    device: Default::default(),
                    pathname: Some("[heap]".to_string())
                },
                size: 2996 * 1024,
                kernel_page_size: 4 * 1024,
                mmu_page_size: 4 * 1024,
                rss: 2796 * 1024,
                pss: 2796 * 1024,
                pss_dirty: 2796 * 1024,
                private_dirty: 2796 * 1024,
                referenced: 2796 * 1024,
                anonymous: 2796 * 1024,
                thp_eligible: 1,
                vm_flags: VmFlags {
                    rd: true,
                    wr: true,
                    mr: true,
                    mw: true,
                    me: true,
                    ac: true,
                    sd: true,
                    ..Default::default()
                },
                ..Default::default()
            },
            SMap {
                mapping: Mapping {
                    start: 0x76be15f03000,
                    end: 0x76be160ed000,
                    perms: Permissions { ..perms },
                    offset: 0,
                    inode: 0,
                    device: Default::default(),
                    pathname: None
                },
                rss: 1960 * 1024,
                referenced: 1960 * 1024,
                private_dirty: 1960 * 1024,
                kernel_page_size: 4 * 1024,
                anonymous: 1960 * 1024,
                size: 1960 * 1024,
                pss: 1960 * 1024,
                mmu_page_size: 4 * 1024,
                ..Default::default()
            },
        ])
    );
}

#[test]
fn parse_rollup_includes_non_heap_process_signals() {
    let input = "\
638000000000-638000001000 ---p 00000000 00:00 0                          [rollup]
Rss:                8192 kB
Pss:                6144 kB
Pss_Dirty:          2048 kB
Shared_Clean:       1024 kB
Shared_Dirty:        512 kB
Private_Clean:      1536 kB
Private_Dirty:      5120 kB
Referenced:         7168 kB
Anonymous:          4096 kB
LazyFree:            256 kB
AnonHugePages:      2048 kB
ShmemHugePages:      128 kB
ShmemPmdMapped:      256 kB
FilePmdMapped:       512 kB
Shared_Hugetlb:       64 kB
Private_Hugetlb:      32 kB
Swap:               1024 kB
SwapPss:             768 kB
Locked:               16 kB
Size:              16384 kB
";

    assert_eq!(
        parse_rollup(input).expect("smaps rollup should parse"),
        ProcessStats {
            size: 16384 * 1024,
            rss: 8192 * 1024,
            pss: 6144 * 1024,
            pss_dirty: 2048 * 1024,
            shared_clean: 1024 * 1024,
            shared_dirty: 512 * 1024,
            private_clean: 1536 * 1024,
            private_dirty: 5120 * 1024,
            referenced: 7168 * 1024,
            anonymous: 4096 * 1024,
            lazy_free: 256 * 1024,
            anon_huge_pages: 2048 * 1024,
            shmem_huge_pages: 128 * 1024,
            shmem_pmd_mapped: 256 * 1024,
            file_pmd_mapped: 512 * 1024,
            shared_hugetlb: 64 * 1024,
            private_hugetlb: 32 * 1024,
            swap: 1024 * 1024,
            swap_pss: 768 * 1024,
            locked: 16 * 1024,
        }
    );
}

#[test]
fn rollup_with_two_entries_is_refused() {
    let input = "\
00400000-00401000 r--p 00000000 00:00 0
Rss:                   4 kB
00401000-00402000 r--p 00000000 00:00 0
Rss:                   4 kB
";
    assert!(parse_rollup(input).is_err());
}

#[test]
fn smaps_text_that_does_not_start_with_a_header_is_refused() {
    assert_eq!(from_str("Rss: 4 kB\n"), None);
}

#[test]
fn memory_stat_rejects_a_bad_counter() {
    assert!(MemoryStat::parse("anon notanumber").is_err());
}

use pprof_alloc::stats::cgroups::{cgroup_file_path, cgroup_metrics, cgroup_v2_path, parse_memory_current};
use pprof_alloc::stats::malloc::{
    malloc_metrics, Malloc, MallocInfo, System, SystemType, Total, TotalType,
};
use pprof_alloc::stats::smaps::process_metrics;

#[test]
fn cgroup_paths_come_from_the_v2_line() {
    let content = "12:memory:/legacy\n0::/user.slice/app.scope\n";
    assert_eq!(cgroup_v2_path(content), Some("/user.slice/app.scope".to_string()));
    assert_eq!(cgroup_v2_path("1:cpu:/x\n"), None);
    assert_eq!(
        cgroup_file_path("/user.slice", "memory.stat"),
        "/sys/fs/cgroup/user.slice/memory.stat"
    );
    assert_eq!(parse_memory_current(" 4096\n"), Some(4096));
    assert_eq!(parse_memory_current("max"), None);
}

#[test]
fn working_set_excludes_inactive_file_pages() {
    let stat = MemoryStat::parse("inactive_file 300").unwrap().with_usage(1000);
    assert_eq!(stat.usage, 1000);
    assert_eq!(stat.working_set, 700);
    let tiny = MemoryStat::parse("inactive_file 3000").unwrap().with_usage(1000);
    assert_eq!(tiny.working_set, 0);
    let metrics = cgroup_metrics(&stat);
    assert_eq!(metrics[0].name, "cgroup_usage");
    assert_eq!(metrics[0].value, 1000);
    assert_eq!(metrics[1].value, 700);
}

#[test]
fn process_metrics_follow_the_rollup() {
    let stats = ProcessStats {
        rss: 5,
        ..Default::default()
    };
    let metrics = process_metrics(&stats);
    assert!(metrics.iter().any(|m| m.name == "process_rss" && m.value == 5));
}

#[test]
fn malloc_info_figures() {
    let info = MallocInfo(Malloc {
        version: "1".to_string(),
        heaps: Vec::new(),
        total: vec![
            Total {
                kind: TotalType::Fast,
                count: 2,
                size: 100,
            },
            Total {
                kind: TotalType::Rest,
                count: 1,
                size: 50,
            },
            Total {
                kind: TotalType::Mmap,
                count: 1,
                size: 400,
            },
        ],
        system: vec![
            System {
                kind: SystemType::Current,
                size: 1000,
            },
            System {
                kind: SystemType::Max,
                size: 2000,
            },
        ],
        aspace: Vec::new(),
    });
    assert_eq!(info.system_max(), 2000);
    assert_eq!(info.system_current(), 1000);
    assert_eq!(info.total(), 650);
    assert_eq!(info.heaps(), 0);
    assert_eq!(info.free_bytes(), 150);
    assert_eq!(info.mmap_bytes(), 400);
    assert_eq!(info.in_use_bytes(), 1250);
    let metrics = malloc_metrics(&info);
    let names: Vec<&str> = metrics.iter().map(|m| m.name).collect();
    assert_eq!(names, vec!["malloc_max", "malloc_current", "malloc_heaps"]);
    let values: Vec<u64> = metrics.iter().map(|m| m.value).collect();
    assert_eq!(values, vec![2000, 1000, 0]);
    assert!(metrics.iter().all(|m| !m.counter));
    assert_eq!(metrics[0].help, "total peak memory");
}

#[test]
fn memory_stat_errors_name_the_line_and_the_problem() {
    let e = MemoryStat::parse("anon notanumber").unwrap_err();
    assert_eq!(e.message(), "Invalid line: 'anon notanumber' (invalid value)");
}
