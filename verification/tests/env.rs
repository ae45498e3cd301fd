use pprof_alloc::allocator::{configure, configured, AllocatorKind, ConfiguredAllocator};
use pprof_alloc::env::{
    cached_allocator, cached_sample_rate, cstr_eq_ignore_ascii, parse_sample_rate,
    pprof_sample_rate, read_allocator_env_override, read_pprof_backend_env, selected_allocator,
    selected_pprof_backend, validate_allocator_selection, AllocatorSelection, CachedSampleRate,
    PprofBackend, SelectionError,
};
use pprof_alloc::Allocator;

#[test]
fn sample_rates_are_plain_decimal() {
    assert_eq!(parse_sample_rate(b"1"), Some(1));
    assert_eq!(parse_sample_rate(b"524288"), Some(524288));
    assert_eq!(parse_sample_rate(b""), None);
    assert_eq!(parse_sample_rate(b"+1"), None);
    assert_eq!(parse_sample_rate(b"12a"), None);
    assert_eq!(parse_sample_rate(b" 1"), None);
    assert_eq!(
        parse_sample_rate(b"99999999999999999999999999"),
        Some(usize::MAX)
    );
}

#[test]
fn sample_rate_env_falls_back_to_default() {
    assert_eq!(pprof_sample_rate(Some(&b"64"[..]), 512), (64, CachedSampleRate::Rate(64)));
    assert_eq!(pprof_sample_rate(Some(&b"x"[..]), 512), (512, CachedSampleRate::Unset));
    assert_eq!(pprof_sample_rate(None, 512), (512, CachedSampleRate::Unset));
    assert_eq!(cached_sample_rate(CachedSampleRate::Unread, 512), None);
    assert_eq!(cached_sample_rate(CachedSampleRate::Unset, 512), Some(512));
    assert_eq!(cached_sample_rate(CachedSampleRate::Rate(64), 512), Some(64));
    let max = usize::MAX.to_string();
    let (rate, cached) = pprof_sample_rate(Some(max.as_bytes()), 512);
    assert_eq!(rate, usize::MAX);
    assert_eq!(cached_sample_rate(cached, 512), Some(usize::MAX));
}

#[test]
fn backend_names_ignore_ascii_case() {
    assert!(cstr_eq_ignore_ascii(b"WRAPPER", "wrapper"));
    assert!(!cstr_eq_ignore_ascii(b"wrapperx", "wrapper"));
    assert_eq!(read_pprof_backend_env(Some(&b"wrapper"[..])), PprofBackend::Wrapper);
    assert_eq!(read_pprof_backend_env(Some(&b"Pprof-Alloc"[..])), PprofBackend::Wrapper);
    assert_eq!(read_pprof_backend_env(Some(&b"rust"[..])), PprofBackend::Wrapper);
    assert_eq!(read_pprof_backend_env(Some(&b"jemalloc"[..])), PprofBackend::Native);
    assert_eq!(read_pprof_backend_env(None), PprofBackend::Native);
    assert_eq!(
        selected_pprof_backend(PprofBackend::Wrapper, None),
        PprofBackend::Wrapper
    );
    assert_eq!(
        selected_pprof_backend(PprofBackend::Uninitialized, Some(&b"rust"[..])),
        PprofBackend::Wrapper
    );
}

#[test]
fn allocator_compat_env_is_used_as_fallback() {
    let mut cell = ConfiguredAllocator::new();
    assert_eq!(
        selected_allocator(
            AllocatorSelection::Uninitialized,
            Allocator::Jemalloc,
            None,
            Some(&b"system"[..]),
            &mut cell
        ),
        Ok(AllocatorSelection::System)
    );
    assert_eq!(configured(&cell), AllocatorKind::Undeclared);
}

#[test]
fn selecting_the_system_allocator_leaves_the_kind_undeclared() {
    let mut cell = ConfiguredAllocator::new();
    assert_eq!(
        selected_allocator(AllocatorSelection::Uninitialized, Allocator::System, None, None, &mut cell),
        Ok(AllocatorSelection::System)
    );
    assert_eq!(configured(&cell), AllocatorKind::Undeclared);
    configure(&mut cell, AllocatorKind::Glibc);
    assert_eq!(
        selected_allocator(
            AllocatorSelection::Uninitialized,
            Allocator::System,
            Some(&b"glibc"[..]),
            None,
            &mut cell
        ),
        Ok(AllocatorSelection::System)
    );
    assert_eq!(configured(&cell), AllocatorKind::Glibc);
}

#[test]
fn allocator_selection_from_the_environment() {
    assert_eq!(read_allocator_env_override(None, None), Ok(None));
    assert_eq!(
        read_allocator_env_override(Some(&b"glibc"[..]), Some(&b"jemalloc"[..])),
        Ok(Some(AllocatorSelection::System))
    );
    assert_eq!(
        read_allocator_env_override(Some(&b"JEMALLOC"[..]), None),
        Err(SelectionError::JemallocUnavailable { from_env: true })
    );
    assert_eq!(
        read_allocator_env_override(None, Some(&b"mimalloc"[..])),
        Err(SelectionError::MimallocUnavailable { from_env: true })
    );
    assert_eq!(
        validate_allocator_selection(AllocatorSelection::Jemalloc, false)
            .unwrap_err()
            .message(),
        "PprofAlloc default allocator jemalloc requires the allocator-jemalloc feature\n"
    );
    assert_eq!(
        validate_allocator_selection(AllocatorSelection::System, false),
        Ok(AllocatorSelection::System)
    );
}

#[test]
fn cached_selection_is_kept() {
    let mut cell = ConfiguredAllocator::new();
    assert_eq!(
        selected_allocator(
            AllocatorSelection::Mimalloc,
            Allocator::System,
            Some(&b"system"[..]),
            None,
            &mut cell
        ),
        Ok(AllocatorSelection::Mimalloc)
    );
    assert_eq!(configured(&cell), AllocatorKind::Undeclared);
    assert_eq!(
        selected_allocator(AllocatorSelection::Uninitialized, Allocator::System, None, None, &mut cell),
        Ok(AllocatorSelection::System)
    );
    assert_eq!(cached_allocator(0), None);
    assert_eq!(cached_allocator(2), Some(AllocatorSelection::Jemalloc));
    assert_eq!(cached_allocator(9), None);
    for s in [
        AllocatorSelection::Uninitialized,
        AllocatorSelection::System,
        AllocatorSelection::Jemalloc,
        AllocatorSelection::Mimalloc,
    ] {
        assert_eq!(AllocatorSelection::from_u8(s.as_u8()), s);
    }
    for b in [PprofBackend::Uninitialized, PprofBackend::Wrapper, PprofBackend::Native] {
        assert_eq!(PprofBackend::from_u8(b.as_u8()), b);
    }
}
