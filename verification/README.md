# pprof-alloc

Allocation profiling and Linux memory telemetry for Rust services, with its
core verified by Verus.

- `src/` is the verified library: the allocation tracker behind the global
  allocator wrapper (`tracker`, `profile`, `sampler`), the pprof profile model,
  string table, protobuf message builder with its gzip compression (through
  flate2), the mappings of loaded objects with their GNU build IDs
  (`pprof::mappings`) and jemalloc heap-dump reader (`pprof`, `proto`), the frame-pointer walk (`trace`), environment
  configuration (`env`), allocator identity and statistics (`allocator`), and
  the parsers and metric lists of the Linux memory views (`stats`).
- `app/` is the program glue: the `#[global_allocator]` implementation, reads
  of the environment, `/proc` and cgroup files, the loaded objects' program
  headers and note segments (`dl_iterate_phdr`), glibc's `malloc_info`, stack
  unwinding and symbolization, the floating-point sample scaling, the protobuf
  wire encoding (prost derives), serde copies of the library's types and the Prometheus
  collectors.
- `tests/` exercises the library on concrete inputs.
