use pprof_alloc::pprof::mappings::{gnu_build_id, segment_mapping};
use std::io::Read;
use pprof_alloc::pprof::{
    file_relative_address, find_mapping, heap_profile, is_pprof_alloc_internal_function,
    parse_jemalloc_heap_profile, BuildId, HeapDumpError, Mapping, ResolvedSymbol, StackProfile,
    StringTable, WeightedStack,
};
use pprof_alloc::stats::Allocations;
use pprof_alloc::tracker::HeapSampleValues;

#[test]
fn pprof_alloc_internal_function_names_are_filtered() {
    assert!(is_pprof_alloc_internal_function(
        "pprof_alloc::trace::frame_pointer::trace"
    ));
    assert!(is_pprof_alloc_internal_function(
        "pprof_alloc::trace::backtrace::trace"
    ));
    assert!(!is_pprof_alloc_internal_function(
        "example::allocation_hot_path"
    ));
}

fn scale_jemalloc_heap_sample(objects: f64, bytes: f64, sampling_rate: f64) -> (i64, i64) {
    if objects == 0.0 || bytes == 0.0 {
        return (0, 0);
    }

    let ratio = (bytes / objects) / sampling_rate;
    let scale_factor = 1.0 / (1.0 - (-ratio).exp());
    let scaled_objects = (objects * scale_factor).trunc();
    let scaled_bytes = (bytes * scale_factor).trunc();
    (
        scaled_objects.clamp(i64::MIN as f64, i64::MAX as f64) as i64,
        scaled_bytes.clamp(i64::MIN as f64, i64::MAX as f64) as i64,
    )
}

#[test]
fn jemalloc_heap_profile_parser_reads_current_and_accumulated_counters() {
    let input = "heap_v2/512\n@ 0x20 0x10\n  t*: 1: 1024 [3: 2048]\n";
    let dump = parse_jemalloc_heap_profile(input).unwrap();
    assert!(dump.error.is_none());

    assert_eq!(dump.stacks.len(), 1);
    let stack = &dump.stacks[0];
    assert_eq!(stack.addrs, vec![0x1f, 0xf]);
    let rate: f64 = dump.sampling_rate.parse().unwrap();
    let (inuse_objects, inuse_space) = scale_jemalloc_heap_sample(
        stack.current_objects.parse().unwrap(),
        stack.current_bytes.parse().unwrap(),
        rate,
    );
    let (alloc_objects, alloc_space) = scale_jemalloc_heap_sample(
        stack.accumulated_objects.parse().unwrap(),
        stack.accumulated_bytes.parse().unwrap(),
        rate,
    );
    let values = [alloc_objects, alloc_space, inuse_objects, inuse_space];
    assert_eq!(values.len(), 4);
    assert!((4..=5).contains(&values[0]));
    assert!((2770..=2790).contains(&values[1]));
    assert_eq!(values[2], 1);
    assert!((1180..=1190).contains(&values[3]));
}

#[test]
fn jemalloc_heap_profile_errors() {
    assert_eq!(parse_jemalloc_heap_profile("").unwrap_err(), HeapDumpError::Empty);
    assert_eq!(
        parse_jemalloc_heap_profile("heap_v1/512\n").unwrap_err(),
        HeapDumpError::UnsupportedHeader("heap_v1/512".to_string())
    );
    let dangling = parse_jemalloc_heap_profile("heap_v2/8\n@ 0x10\n").unwrap();
    assert_eq!(dangling.error, Some(HeapDumpError::StackWithoutCounters));
    let twice = parse_jemalloc_heap_profile("heap_v2/8\n@ 0x10\n@ 0x20\nt*: 1: 2 [3: 4]\n").unwrap();
    assert_eq!(twice.error, Some(HeapDumpError::StackWithoutCounters));
    let bad = parse_jemalloc_heap_profile("heap_v2/8\n@ 0xzz\n").unwrap();
    assert_eq!(bad.error, Some(HeapDumpError::BadAddress("zz".to_string())));
}

#[test]
fn jemalloc_counter_lines_without_a_stack_are_skipped() {
    let dump = parse_jemalloc_heap_profile(
        "heap_v2/524288\n  t*: 5: 10 [6: 12]\n@ 0x0 0x0x2\n\n  t*: 1: 2\nMAPPED_LIBRARIES:\n",
    )
    .unwrap();
    assert!(dump.error.is_none());
    assert_eq!(dump.sampling_rate, "524288");
    assert_eq!(dump.stacks.len(), 1);
    assert_eq!(dump.stacks[0].addrs, vec![0, 1]);
    assert_eq!(dump.stacks[0].current_objects, "1");
    assert_eq!(dump.stacks[0].current_bytes, "2");
    assert_eq!(dump.stacks[0].accumulated_objects, "0");
    assert_eq!(dump.stacks[0].accumulated_bytes, "0");
}

#[test]
fn string_table_keeps_each_text_once() {
    let mut table = StringTable::new();
    assert_eq!(table.insert(""), 0);
    assert_eq!(table.insert("alloc_space"), 1);
    assert_eq!(table.insert("bytes"), 2);
    assert_eq!(table.insert("alloc_space"), 1);
    assert_eq!(
        table.finish(),
        vec!["".to_string(), "alloc_space".to_string(), "bytes".to_string()]
    );
}

#[test]
fn stacks_share_annotations() {
    let mut profile = StackProfile::new(Vec::new());
    let stack = WeightedStack {
        addrs: vec![0x1000],
        values: vec![42, 7],
    };
    profile.push_stack(stack.clone(), Some("a"));
    profile.push_stack(stack.clone(), Some("b"));
    profile.push_stack(stack.clone(), Some("a"));
    profile.push_stack(stack, None);
    assert_eq!(profile.annotations, vec!["a".to_string(), "b".to_string()]);
    let idx: Vec<Option<usize>> = profile.stacks.iter().map(|s| s.1).collect();
    assert_eq!(idx, vec![Some(0), Some(1), Some(0), None]);
}

#[test]
fn build_ids_print_as_lowercase_hex() {
    assert_eq!(BuildId(vec![0x00, 0xab, 0x7f, 0x10]).to_hex(), "00ab7f10");
    assert_eq!(BuildId(Vec::new()).to_hex(), "");
}

fn mapping(start: usize, end: usize, file_offset: u64) -> Mapping {
    Mapping {
        memory_start: start,
        memory_end: end,
        file_offset,
        pathname: "/lib/x.so".to_string(),
        build_id: None,
    }
}

#[test]
fn addresses_are_made_file_relative() {
    let mappings = vec![mapping(0x1000, 0x2000, 0x100), mapping(0x1800, 0x3000, 0)];
    assert_eq!(find_mapping(&mappings, 0x1900), Some(0));
    assert_eq!(find_mapping(&mappings, 0x2500), Some(1));
    assert_eq!(find_mapping(&mappings, 0x3000), None);
    assert_eq!(file_relative_address(&mappings, 0x1010), (Some(0), 0x110));
    assert_eq!(file_relative_address(&mappings, 0x2010), (Some(1), 0x810));
    assert_eq!(file_relative_address(&mappings, 0x9000), (None, 0x9000));
}

#[test]
fn heap_profiles_skip_stacks_without_values() {
    let entries = vec![
        (vec![1, 2], Allocations::default()),
        (
            vec![3],
            Allocations {
                allocated: 10,
                freed: 0,
                allocations: 1,
                frees: 0,
            },
        ),
    ];
    let values = vec![
        HeapSampleValues {
            alloc_objects: 0,
            alloc_space: 0,
            inuse_objects: 0,
            inuse_space: 0,
        },
        HeapSampleValues {
            alloc_objects: 1,
            alloc_space: 10,
            inuse_objects: 1,
            inuse_space: 10,
        },
    ];
    let profile = heap_profile(&entries, &values, Vec::new());
    assert_eq!(profile.stacks.len(), 1);
    assert_eq!(profile.stacks[0].0.addrs, vec![3]);
    assert_eq!(profile.stacks[0].0.values, vec![1, 10, 1, 10]);
    assert_eq!(profile.stacks[0].1, None);
}

#[test]
fn proto_profiles_keep_stack_order_and_values() {
    let mut profile = StackProfile::new(vec![Mapping {
        memory_start: 0x1000,
        memory_end: 0x4000,
        file_offset: 0x200,
        pathname: "/bin/app".to_string(),
        build_id: Some(BuildId(vec![0xde, 0xad])),
    }]);
    profile.push_stack(
        WeightedStack {
            addrs: vec![0x1000, 0x2000, 0, 0x3000, 0x9000],
            values: vec![42, 7],
        },
        Some("hot"),
    );
    profile.push_stack(
        WeightedStack {
            addrs: vec![0x2000],
            values: vec![1, 2],
        },
        None,
    );
    let symbols = vec![
        (
            0x2000u64,
            vec![ResolvedSymbol {
                name: "app::work".to_string(),
                system_name: "_ZN3app4workE".to_string(),
                filename: "src/main.rs".to_string(),
                lineno: 12,
            }],
        ),
        (
            0x3000u64,
            vec![ResolvedSymbol {
                name: "pprof_alloc::trace::capture".to_string(),
                system_name: "x".to_string(),
                filename: String::new(),
                lineno: 0,
            }],
        ),
    ];
    let types = vec![
        ("alloc_space".to_string(), "bytes".to_string()),
        ("inuse_space".to_string(), "bytes".to_string()),
    ];
    let r = profile.to_pprof_proto(&types, ("space", "bytes"), 512, None, 99, &symbols);
    let table = &r.string_table;
    assert_eq!(table[0], "");
    assert_eq!(r.sample_type.len(), 2);
    assert_eq!(table[r.sample_type[0].ty as usize], "alloc_space");
    assert_eq!(table[r.default_sample_type as usize], "inuse_space");
    assert_eq!(r.period, 512);
    assert_eq!(r.time_nanos, 99);
    assert_eq!(r.mapping.len(), 1);
    assert_eq!(table[r.mapping[0].filename as usize], "/bin/app");
    assert_eq!(table[r.mapping[0].build_id as usize], "dead");
    assert!(r.mapping[0].has_functions);
    assert!(r.mapping[0].has_filenames);
    assert!(r.mapping[0].has_line_numbers);
    assert_eq!(r.sample.len(), 2);
    assert_eq!(r.sample[0].value, vec![42, 7]);
    let addrs: Vec<u64> = r.sample[0]
        .location_id
        .iter()
        .map(|id| r.location[*id as usize - 1].address)
        .collect();
    assert_eq!(addrs, vec![0x200, 0x1200, 0x9000]);
    assert_eq!(r.sample[0].label.len(), 3);
    assert_eq!(table[r.sample[0].label[0].key as usize], "annotation");
    assert_eq!(table[r.sample[0].label[0].str as usize], "hot");
    assert_eq!(r.sample[1].location_id, vec![r.sample[0].location_id[1]]);
    assert!(r.sample[1].label.is_empty());
    assert_eq!(r.function.len(), 1);
    assert_eq!(table[r.function[0].name as usize], "app::work");
    assert_eq!(r.location[1].line.len(), 1);
    assert_eq!(r.location[1].line[0].line, 12);
    assert_eq!(r.location[1].mapping_id, 1);
    assert_eq!(r.location[2].mapping_id, 0);
}

#[test]
fn profile_can_emit_alloc_and_inuse_sample_types() {
    let mut profile = StackProfile::new(Vec::new());
    profile.push_stack(
        WeightedStack {
            addrs: vec![0x1000],
            values: vec![42, 7],
        },
        None,
    );

    let types = vec![
        ("alloc_space".to_string(), "bytes".to_string()),
        ("inuse_space".to_string(), "bytes".to_string()),
    ];
    let decoded = profile.to_pprof_proto(&types, ("space", "bytes"), 0, None, 0, &Vec::new());

    assert_eq!(decoded.sample_type.len(), 2);
    assert_eq!(decoded.sample.len(), 1);
    assert_eq!(decoded.sample[0].value, vec![42, 7]);
    assert_eq!(
        decoded.string_table[decoded.default_sample_type as usize],
        "inuse_space"
    );
}

#[test]
fn profile_preserves_leaf_to_root_stack_order() {
    let mut profile = StackProfile::new(Vec::new());
    profile.push_stack(
        WeightedStack {
            addrs: vec![0x1000, 0x2000, 0x3000],
            values: vec![1],
        },
        None,
    );

    let types = vec![("inuse_space".to_string(), "bytes".to_string())];
    let decoded = profile.to_pprof_proto(&types, ("space", "bytes"), 0, None, 0, &Vec::new());

    let sample = &decoded.sample[0];
    let by_id = decoded
        .location
        .iter()
        .map(|location| (location.id, location.address))
        .collect::<std::collections::BTreeMap<_, _>>();
    let sample_addrs = sample
        .location_id
        .iter()
        .map(|id| *by_id.get(id).unwrap())
        .collect::<Vec<_>>();

    assert_eq!(sample_addrs, vec![0x1000, 0x2000, 0x3000]);
}

#[test]
fn pprof_output_is_the_gzipped_encoding() {
    let mut profile = StackProfile::new(Vec::new());
    profile.push_stack(
        WeightedStack {
            addrs: vec![0x1000],
            values: vec![5],
        },
        None,
    );
    let types = vec![("inuse_space".to_string(), "bytes".to_string())];
    let gz = profile.to_pprof_with_period(
        &types,
        ("space", "bytes"),
        7,
        None,
        0,
        &Vec::new(),
        |p| {
            let mut bytes = vec![p.sample.len() as u8, p.period as u8];
            bytes.extend_from_slice(b"encoded");
            bytes
        },
    );
    assert_ne!(gz, b"\x01\x07encoded".to_vec());
    assert_eq!(&gz[..2], &[0x1f, 0x8b]);
    let mut decoded = Vec::new();
    flate2::read::GzDecoder::new(&gz[..])
        .read_to_end(&mut decoded)
        .unwrap();
    assert_eq!(decoded, b"\x01\x07encoded".to_vec());
}

#[test]
fn inlined_symbols_give_one_line_each() {
    let mut profile = StackProfile::new(vec![Mapping {
        memory_start: 0x1000,
        memory_end: 0x1800,
        file_offset: 0,
        pathname: "/lib/x.so".to_string(),
        build_id: None,
    }]);
    profile.push_stack(
        WeightedStack {
            addrs: vec![0x1000, 0x2000],
            values: vec![1],
        },
        None,
    );
    let sym = |name: &str, line: i64| ResolvedSymbol {
        name: name.to_string(),
        system_name: format!("_{name}"),
        filename: "lib.rs".to_string(),
        lineno: line,
    };
    let symbols = vec![
        (0x1000u64, vec![sym("inner", 3), sym("outer", 9)]),
        (0x2000u64, vec![sym("outer", 11)]),
    ];
    let types = vec![("inuse_space".to_string(), "bytes".to_string())];
    let r = profile.to_pprof_proto(&types, ("space", "bytes"), 0, Some("k".to_string()), 0, &symbols);
    let table = &r.string_table;
    assert_eq!(r.function.len(), 2);
    assert_eq!(r.location.len(), 2);
    let lines: Vec<(String, i64)> = r.location[0]
        .line
        .iter()
        .map(|l| (table[r.function[l.function_id as usize - 1].name as usize].clone(), l.line))
        .collect();
    assert_eq!(lines, vec![("inner".to_string(), 3), ("outer".to_string(), 9)]);
    assert_eq!(table[r.function[0].system_name as usize], "_inner");
    assert_eq!(table[r.function[1].system_name as usize], "_outer");
    assert_eq!(table[r.function[1].filename as usize], "lib.rs");
    assert_eq!(r.function[1].start_line, 0);
    assert_eq!(r.location[1].line.len(), 1);
    assert_eq!(r.location[1].line[0].function_id, 2);
    assert_eq!(r.location[1].line[0].line, 11);
    assert_eq!(r.location[0].address, 0);
    assert_eq!(r.location[0].mapping_id, 1);
    assert_eq!(r.location[1].mapping_id, 0);
    assert!(r.mapping[0].has_inline_frames);
}

#[test]
fn mapping_flags_follow_first_named_functions() {
    let mapping = |start: usize, path: &str| Mapping {
        memory_start: start,
        memory_end: start + 0x100,
        file_offset: start as u64,
        pathname: path.to_string(),
        build_id: None,
    };
    let mut profile = StackProfile::new(vec![mapping(0x1000, "/a"), mapping(0x2000, "/b")]);
    profile.push_stack(
        WeightedStack {
            addrs: vec![0x1010, 0x2010],
            values: vec![1],
        },
        None,
    );
    let bare = |name: &str| ResolvedSymbol {
        name: name.to_string(),
        system_name: String::new(),
        filename: String::new(),
        lineno: 0,
    };
    let symbols = vec![
        (0x1010u64, vec![bare("shared")]),
        (
            0x2010u64,
            vec![ResolvedSymbol {
                name: "shared".to_string(),
                system_name: String::new(),
                filename: "b.rs".to_string(),
                lineno: 4,
            }],
        ),
    ];
    let types = vec![("inuse_space".to_string(), "bytes".to_string())];
    let r = profile.to_pprof_proto(&types, ("space", "bytes"), 0, None, 0, &symbols);
    assert_eq!(r.function.len(), 1);
    assert!(r.mapping[0].has_functions);
    assert!(!r.mapping[0].has_filenames);
    assert!(!r.mapping[0].has_line_numbers);
    assert!(!r.mapping[1].has_functions);
    assert!(!r.mapping[1].has_filenames);
    assert!(!r.mapping[1].has_line_numbers);
    assert!(!r.mapping[0].has_inline_frames);
    assert_eq!(r.location[1].line[0].line, 4);
    assert_eq!(r.location[1].mapping_id, 2);
}

#[test]
fn locations_are_numbered_in_order_of_first_use() {
    let mut profile = StackProfile::new(Vec::new());
    profile.push_stack(
        WeightedStack {
            addrs: vec![0x30, 0x10],
            values: vec![1],
        },
        None,
    );
    profile.push_stack(
        WeightedStack {
            addrs: vec![0x10, 0, 0x20, 0x30],
            values: vec![2],
        },
        None,
    );
    let types = vec![("inuse_space".to_string(), "bytes".to_string())];
    let r = profile.to_pprof_proto(&types, ("space", "bytes"), 0, None, 0, &Vec::new());
    let addrs: Vec<u64> = r.location.iter().map(|l| l.address).collect();
    assert_eq!(addrs, vec![0x30, 0x10, 0x20]);
    assert_eq!(r.sample[0].location_id, vec![1, 2]);
    assert_eq!(r.sample[1].location_id, vec![2, 3, 1]);
}

fn note(name: &[u8], kind: u32, desc: &[u8]) -> Vec<u8> {
    let mut n = Vec::new();
    n.extend_from_slice(&(name.len() as u32).to_le_bytes());
    n.extend_from_slice(&(desc.len() as u32).to_le_bytes());
    n.extend_from_slice(&kind.to_le_bytes());
    n.extend_from_slice(name);
    n.resize(n.len().div_ceil(4) * 4, 0);
    n.extend_from_slice(desc);
    n.resize(n.len().div_ceil(4) * 4, 0);
    n
}

#[test]
fn gnu_build_id_is_read_from_the_notes() {
    let mut notes = note(b"Linux\0", 3, &[1, 2, 3, 4]);
    notes.extend(note(b"GNU\0", 1, &[9, 9]));
    notes.extend(note(b"GNU\0", 3, &[0xde, 0xad, 0xbe]));
    notes.extend(note(b"GNU\0", 3, &[0x11]));
    assert_eq!(gnu_build_id(&notes), Some(vec![0xde, 0xad, 0xbe]));
    assert_eq!(gnu_build_id(&note(b"GNU\0", 1, &[7])), None);
    assert_eq!(gnu_build_id(&[]), None);
    let whole = note(b"GNU\0", 3, &[5, 6, 7, 8]);
    assert_eq!(gnu_build_id(&whole[..whole.len() - 1]), None);
}

#[test]
fn only_executable_segments_become_mappings() {
    let m = segment_mapping(0x1000, 0x200, 0x300, 0x40, 5, "/bin/x".to_string(), None).unwrap();
    assert_eq!((m.memory_start, m.memory_end, m.file_offset), (0x1200, 0x1500, 0x40));
    assert_eq!(m.pathname, "/bin/x");
    assert!(segment_mapping(0x1000, 0x200, 0x300, 0x40, 4, "/bin/x".to_string(), None).is_none());
    assert!(segment_mapping(u64::MAX, 1, 1, 0, 1, String::new(), None).is_none());
}
