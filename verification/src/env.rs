//! Environment-driven configuration: how the values of the configuration
//! variables are read and what they select.
//!
//! Reading the process environment is left to the caller, which hands the raw
//! bytes of a variable (`None` when it is unset) to these functions.
use crate::allocator::{configure, kind_code, AllocatorKind, ConfiguredAllocator};
use crate::text::str_chars;
use vstd::prelude::*;

verus! {

/// Environment variable read by `PprofAlloc::with_pprof_sample_rate_from_env`.
///
/// The value must be an unsigned integer byte rate. Missing or invalid values
/// use the default passed to `with_pprof_sample_rate_from_env`.
pub const PPROF_SAMPLE_RATE_ENV: &'static str = "PPROF_ALLOC_SAMPLE_RATE";

/// Environment variable that selects the pprof backend when native jemalloc
/// profiling support is compiled in: `wrapper`, `pprof-alloc` and `rust`
/// select the wrapper sampler, anything else (or nothing) the native one.
pub const PPROF_BACKEND_ENV: &'static str = "PPROF_ALLOC_BACKEND";

/// Environment variable that selects the allocator backend: `system`/`glibc`,
/// `jemalloc` or `mimalloc`. `ALLOCATOR` is read when it is unset.
pub const ALLOCATOR_ENV: &'static str = "PPROF_ALLOC_ALLOCATOR";

/// The compatibility fallback for [`ALLOCATOR_ENV`].
pub const ALLOCATOR_COMPAT_ENV: &'static str = "ALLOCATOR";

/// Which profiler records pprof stacks.
#[derive(Clone, Copy, Debug, PartialEq, Eq, Structural)]
pub enum PprofBackend {
    Uninitialized,
    Wrapper,
    Native,
}

impl PprofBackend {
    pub open spec fn code(self) -> u8 {
        match self {
            PprofBackend::Uninitialized => 0,
            PprofBackend::Wrapper => 1,
            PprofBackend::Native => 2,
        }
    }

    /// The number under which the backend is cached.
    pub fn as_u8(self) -> (r: u8)
        ensures
            r == self.code(),
    {
        match self {
            PprofBackend::Uninitialized => 0,
            PprofBackend::Wrapper => 1,
            PprofBackend::Native => 2,
        }
    }

    /// The backend cached as `value`; unknown numbers read as uninitialized.
    pub fn from_u8(value: u8) -> (r: PprofBackend)
        ensures
            value <= 2 ==> r.code() == value,
            value > 2 ==> r == PprofBackend::Uninitialized,
    {
        match value {
            1 => PprofBackend::Wrapper,
            2 => PprofBackend::Native,
            _ => PprofBackend::Uninitialized,
        }
    }
}

/// The allocator a program asks for.
#[derive(Clone, Copy, Debug, PartialEq, Eq, Structural)]
pub enum Allocator {
    System,
    Jemalloc,
    Mimalloc,
}

/// The allocator in use, once it has been selected.
#[derive(Clone, Copy, Debug, PartialEq, Eq, Structural)]
pub enum AllocatorSelection {
    Uninitialized,
    System,
    Jemalloc,
    Mimalloc,
}

pub open spec fn selection_of(a: Allocator) -> AllocatorSelection {
    match a {
        Allocator::System => AllocatorSelection::System,
        Allocator::Jemalloc => AllocatorSelection::Jemalloc,
        Allocator::Mimalloc => AllocatorSelection::Mimalloc,
    }
}

impl Allocator {
    /// The selection that asks for this allocator.
    pub fn as_selection(self) -> (r: AllocatorSelection)
        ensures
            r == selection_of(self),
    {
        match self {
            Allocator::System => AllocatorSelection::System,
            Allocator::Jemalloc => AllocatorSelection::Jemalloc,
            Allocator::Mimalloc => AllocatorSelection::Mimalloc,
        }
    }
}

impl AllocatorSelection {
    pub open spec fn code(self) -> u8 {
        match self {
            AllocatorSelection::Uninitialized => 0,
            AllocatorSelection::System => 1,
            AllocatorSelection::Jemalloc => 2,
            AllocatorSelection::Mimalloc => 3,
        }
    }

    /// The number under which the selection is cached.
    pub fn as_u8(self) -> (r: u8)
        ensures
            r == self.code(),
    {
        match self {
            AllocatorSelection::Uninitialized => 0,
            AllocatorSelection::System => 1,
            AllocatorSelection::Jemalloc => 2,
            AllocatorSelection::Mimalloc => 3,
        }
    }

    /// The selection cached as `value`; unknown numbers read as uninitialized.
    pub fn from_u8(value: u8) -> (r: AllocatorSelection)
        ensures
            value <= 3 ==> r.code() == value,
            value > 3 ==> r == AllocatorSelection::Uninitialized,
    {
        match value {
            1 => AllocatorSelection::System,
            2 => AllocatorSelection::Jemalloc,
            3 => AllocatorSelection::Mimalloc,
            _ => AllocatorSelection::Uninitialized,
        }
    }
}

/// Decoding a cached selection gives back what was cached.
pub proof fn lemma_selection_code_roundtrip(s: AllocatorSelection, b: PprofBackend)
    ensures
        s.code() <= 3,
        b.code() <= 2,
        forall|t: AllocatorSelection| t.code() == s.code() ==> t == s,
        forall|c: PprofBackend| c.code() == b.code() ==> c == b,
{
}

/// The number that the decimal digits `s` spell.
pub open spec fn decimal_value(s: Seq<u8>) -> nat
    decreases s.len(),
{
    if s.len() == 0 {
        0
    } else {
        decimal_value(s.drop_last()) * 10 + (s.last() - 48) as nat
    }
}

pub open spec fn is_digit_byte(b: u8) -> bool {
    48 <= b <= 57
}

/// A sample rate text: at least one ASCII digit and nothing else; its value
/// saturates at `usize::MAX`.
pub open spec fn sample_rate_spec(s: Seq<u8>) -> Option<usize> {
    if s.len() > 0 && forall|i: int| 0 <= i < s.len() ==> is_digit_byte(#[trigger] s[i]) {
        if decimal_value(s) <= usize::MAX {
            Some(decimal_value(s) as usize)
        } else {
            Some(usize::MAX)
        }
    } else {
        None
    }
}

proof fn lemma_decimal_value_grows(s: Seq<u8>, k: int)
    requires
        0 <= k <= s.len(),
        forall|i: int| 0 <= i < s.len() ==> is_digit_byte(#[trigger] s[i]),
    ensures
        decimal_value(s.take(k)) <= decimal_value(s),
    decreases s.len() - k,
{
    if k < s.len() {
        lemma_decimal_value_grows(s, k + 1);
        assert(s.take(k + 1).drop_last() =~= s.take(k));
        assert(s.take(k + 1).last() == s[k]);
    } else {
        assert(s.take(k) =~= s);
    }
}

/// Parses the value of [`PPROF_SAMPLE_RATE_ENV`]: `None` unless it is a
/// non-empty run of ASCII digits; the rate saturates at `usize::MAX`.
pub fn parse_sample_rate(value: &[u8]) -> (r: Option<usize>)
    ensures
        r == sample_rate_spec(value@),
{
    let mut acc: usize = 0;
    let mut i: usize = 0;
    let ghost s = value@;
    while i < value.len()
        invariant
            s == value@,
            i <= value.len(),
            forall|j: int| 0 <= j < i ==> is_digit_byte(#[trigger] s[j]),
            acc == (if decimal_value(s.take(i as int)) <= usize::MAX {
                decimal_value(s.take(i as int)) as usize
            } else {
                usize::MAX
            }),
        decreases value.len() - i,
    {
        let b = value[i];
        if !(b >= 48 && b <= 57) {
            assert(!is_digit_byte(s[i as int]));
            return None;
        }
        assert(s.take(i + 1).drop_last() =~= s.take(i as int));
        assert(s.take(i + 1).last() == b);
        let d = (b - 48) as usize;
        let ghost prev = decimal_value(s.take(i as int));
        let m = match acc.checked_mul(10) {
            Some(x) => x,
            None => usize::MAX,
        };
        let n = m.saturating_add(d);
        assert(n == (if prev * 10 + d <= usize::MAX {
            (prev * 10 + d) as usize
        } else {
            usize::MAX
        })) by (nonlinear_arith)
            requires
                acc == (if prev <= usize::MAX {
                    prev as usize
                } else {
                    usize::MAX
                }),
                m == (if acc * 10 <= usize::MAX {
                    (acc * 10) as usize
                } else {
                    usize::MAX
                }),
                n == (if m + d <= usize::MAX {
                    (m + d) as usize
                } else {
                    usize::MAX
                }),
                d <= 9,
                prev >= 0,
        ;
        acc = n;
        i = i + 1;
    }
    assert(s.take(i as int) =~= s);
    if i == 0 {
        None
    } else {
        Some(acc)
    }
}

/// ASCII lowercase of a code point.
pub open spec fn ascii_lower(c: int) -> int {
    if 65 <= c <= 90 {
        c + 32
    } else {
        c
    }
}

/// The bytes `a` spell the text `b`, up to ASCII case.
pub open spec fn eq_ignore_ascii_case(a: Seq<u8>, b: Seq<char>) -> bool {
    a.len() == b.len() && forall|i: int|
        0 <= i < a.len() ==> ascii_lower(#[trigger] a[i] as int) == ascii_lower((b[i] as u32) as int)
}

fn lower_code(c: u32) -> (r: u32)
    ensures
        r == ascii_lower(c as int),
{
    if c >= 65 && c <= 90 {
        c + 32
    } else {
        c
    }
}

/// Whether the bytes of an environment value spell `expected`, ignoring
/// ASCII case.
pub fn cstr_eq_ignore_ascii(value: &[u8], expected: &str) -> (r: bool)
    ensures
        r == eq_ignore_ascii_case(value@, expected@),
{
    let e = str_chars(expected);
    if value.len() != e.len() {
        return false;
    }
    let mut i: usize = 0;
    while i < e.len()
        invariant
            value.len() == e.len(),
            e@ == expected@,
            i <= e.len(),
            forall|j: int| 0 <= j < i ==> ascii_lower(#[trigger] value@[j] as int) == ascii_lower((e@[j] as u32) as int),
        decreases e.len() - i,
    {
        let a = value[i] as u32;
        let c = e[i] as u32;
        assert(a as int == value@[i as int] as int);
        if lower_code(a) != lower_code(c) {
            return false;
        }
        i = i + 1;
    }
    true
}

pub open spec fn backend_spec(value: Option<Seq<u8>>) -> PprofBackend {
    match value {
        None => PprofBackend::Native,
        Some(v) => if eq_ignore_ascii_case(v, "wrapper"@) || eq_ignore_ascii_case(v, "pprof-alloc"@)
            || eq_ignore_ascii_case(v, "rust"@) {
            PprofBackend::Wrapper
        } else {
            PprofBackend::Native
        },
    }
}

pub open spec fn opt_view(value: Option<&[u8]>) -> Option<Seq<u8>> {
    match value {
        None => None,
        Some(v) => Some(v@),
    }
}

/// The backend that the value of [`PPROF_BACKEND_ENV`] selects: the wrapper
/// for `wrapper`, `pprof-alloc` or `rust` in any ASCII case, the native
/// profiler otherwise, also when the variable is unset.
pub fn read_pprof_backend_env(value: Option<&[u8]>) -> (r: PprofBackend)
    ensures
        r == backend_spec(opt_view(value)),
{
    match value {
        None => PprofBackend::Native,
        Some(v) => {
            if cstr_eq_ignore_ascii(v, "wrapper") || cstr_eq_ignore_ascii(v, "pprof-alloc")
                || cstr_eq_ignore_ascii(v, "rust") {
                PprofBackend::Wrapper
            } else {
                PprofBackend::Native
            }
        },
    }
}

/// An allocator that was asked for but is not compiled into this build; the
/// process reports it and exits.
#[derive(Clone, Copy, Debug, PartialEq, Eq, Structural)]
pub enum SelectionError {
    /// jemalloc was asked for, by the environment when `from_env` holds,
    /// else as the configured default.
    JemallocUnavailable { from_env: bool },
    /// mimalloc was asked for, as above.
    MimallocUnavailable { from_env: bool },
}

pub open spec fn selection_error_message(e: SelectionError) -> Seq<char> {
    match e {
        SelectionError::JemallocUnavailable { from_env: true } =>
            "PPROF_ALLOC_ALLOCATOR=jemalloc requires the allocator-jemalloc feature\n"@,
        SelectionError::JemallocUnavailable { from_env: false } =>
            "PprofAlloc default allocator jemalloc requires the allocator-jemalloc feature\n"@,
        SelectionError::MimallocUnavailable { from_env: true } =>
            "PPROF_ALLOC_ALLOCATOR=mimalloc requires the allocator-mimalloc feature\n"@,
        SelectionError::MimallocUnavailable { from_env: false } =>
            "PprofAlloc default allocator mimalloc requires the allocator-mimalloc feature\n"@,
    }
}

impl SelectionError {
    /// The line written to standard error before the process exits.
    pub fn message(self) -> (r: &'static str)
        ensures
            r@ == selection_error_message(self),
    {
        match self {
            SelectionError::JemallocUnavailable { from_env: true } =>
                "PPROF_ALLOC_ALLOCATOR=jemalloc requires the allocator-jemalloc feature\n",
            SelectionError::JemallocUnavailable { from_env: false } =>
                "PprofAlloc default allocator jemalloc requires the allocator-jemalloc feature\n",
            SelectionError::MimallocUnavailable { from_env: true } =>
                "PPROF_ALLOC_ALLOCATOR=mimalloc requires the allocator-mimalloc feature\n",
            SelectionError::MimallocUnavailable { from_env: false } =>
                "PprofAlloc default allocator mimalloc requires the allocator-mimalloc feature\n",
        }
    }
}

pub open spec fn validate_spec(selection: AllocatorSelection, from_env: bool) -> Result<
    AllocatorSelection,
    SelectionError,
> {
    match selection {
        AllocatorSelection::Jemalloc => Err(SelectionError::JemallocUnavailable { from_env }),
        AllocatorSelection::Mimalloc => Err(SelectionError::MimallocUnavailable { from_env }),
        _ => Ok(selection),
    }
}

/// Checks that the selected allocator is compiled into this build. Neither
/// jemalloc nor mimalloc is, so selecting either is an error.
pub fn validate_allocator_selection(selection: AllocatorSelection, from_env: bool) -> (r: Result<
    AllocatorSelection,
    SelectionError,
>)
    ensures
        r == validate_spec(selection, from_env),
{
    match selection {
        AllocatorSelection::Jemalloc => Err(SelectionError::JemallocUnavailable { from_env }),
        AllocatorSelection::Mimalloc => Err(SelectionError::MimallocUnavailable { from_env }),
        _ => Ok(selection),
    }
}

pub open spec fn override_spec(primary: Option<Seq<u8>>, compat: Option<Seq<u8>>) -> Result<
    Option<AllocatorSelection>,
    SelectionError,
> {
    let value = if primary is Some {
        primary
    } else {
        compat
    };
    match value {
        None => Ok(None),
        Some(v) => if eq_ignore_ascii_case(v, "jemalloc"@) {
            match validate_spec(AllocatorSelection::Jemalloc, true) {
                Ok(s) => Ok(Some(s)),
                Err(e) => Err(e),
            }
        } else if eq_ignore_ascii_case(v, "mimalloc"@) {
            match validate_spec(AllocatorSelection::Mimalloc, true) {
                Ok(s) => Ok(Some(s)),
                Err(e) => Err(e),
            }
        } else {
            Ok(Some(AllocatorSelection::System))
        },
    }
}

/// The allocator that the environment asks for: the value of
/// [`ALLOCATOR_ENV`] (`primary`), or of [`ALLOCATOR_COMPAT_ENV`] (`compat`)
/// when that is unset. `jemalloc` and `mimalloc` in any ASCII case select
/// those allocators, any other value the system allocator; `None` when both
/// are unset.
pub fn read_allocator_env_override(primary: Option<&[u8]>, compat: Option<&[u8]>) -> (r: Result<
    Option<AllocatorSelection>,
    SelectionError,
>)
    ensures
        r == override_spec(opt_view(primary), opt_view(compat)),
{
    let value = match primary {
        Some(v) => Some(v),
        None => compat,
    };
    match value {
        None => Ok(None),
        Some(v) => {
            if cstr_eq_ignore_ascii(v, "jemalloc") {
                match validate_allocator_selection(AllocatorSelection::Jemalloc, true) {
                    Ok(s) => Ok(Some(s)),
                    Err(e) => Err(e),
                }
            } else if cstr_eq_ignore_ascii(v, "mimalloc") {
                match validate_allocator_selection(AllocatorSelection::Mimalloc, true) {
                    Ok(s) => Ok(Some(s)),
                    Err(e) => Err(e),
                }
            } else {
                Ok(Some(AllocatorSelection::System))
            }
        },
    }
}

/// The allocator kind that a selection declares, if it declares one: the
/// system allocator declares none, so a program that never declares its
/// kind keeps reading it as undeclared.
pub open spec fn selection_kind(s: AllocatorSelection) -> Option<AllocatorKind> {
    match s {
        AllocatorSelection::Jemalloc => Some(AllocatorKind::Jemalloc),
        AllocatorSelection::Mimalloc => Some(AllocatorKind::Mimalloc),
        _ => None,
    }
}

pub open spec fn first_selection_spec(
    default: Allocator,
    primary: Option<Seq<u8>>,
    compat: Option<Seq<u8>>,
) -> Result<AllocatorSelection, SelectionError> {
    match override_spec(primary, compat) {
        Err(e) => Err(e),
        Ok(Some(s)) => Ok(s),
        Ok(None) => validate_spec(selection_of(default), false),
    }
}

/// The allocator in use. `cached` is the selection made earlier, if any; on
/// the first call (`cached` uninitialized) the environment decides, else
/// `default`. Choosing jemalloc or mimalloc declares that kind in `cell`;
/// choosing the system allocator leaves `cell` as it was. An allocator that
/// is not compiled in is an error, on which the process exits.
pub fn selected_allocator(
    cached: AllocatorSelection,
    default: Allocator,
    primary: Option<&[u8]>,
    compat: Option<&[u8]>,
    cell: &mut ConfiguredAllocator,
) -> (r: Result<AllocatorSelection, SelectionError>)
    ensures
        cached != AllocatorSelection::Uninitialized ==> r == Ok::<
            AllocatorSelection,
            SelectionError,
        >(cached) && final(cell).code() == old(cell).code(),
        cached == AllocatorSelection::Uninitialized ==> r == first_selection_spec(
            default,
            opt_view(primary),
            opt_view(compat),
        ),
        cached == AllocatorSelection::Uninitialized && r is Ok ==> final(cell).code() == match selection_kind(r->Ok_0) {
            Some(k) => kind_code(k),
            None => old(cell).code(),
        },
        cached == AllocatorSelection::Uninitialized && r is Err ==> final(cell).code() == old(
            cell,
        ).code(),
{
    if cached != AllocatorSelection::Uninitialized {
        return Ok(cached);
    }
    let selected = match read_allocator_env_override(primary, compat) {
        Err(e) => return Err(e),
        Ok(Some(s)) => s,
        Ok(None) => match validate_allocator_selection(default.as_selection(), false) {
            Ok(s) => s,
            Err(e) => return Err(e),
        },
    };
    match selected {
        AllocatorSelection::Jemalloc => configure(cell, AllocatorKind::Jemalloc),
        AllocatorSelection::Mimalloc => configure(cell, AllocatorKind::Mimalloc),
        _ => {},
    }
    Ok(selected)
}

/// The cached selection, if one was made.
pub fn cached_allocator(cached: u8) -> (r: Option<AllocatorSelection>)
    ensures
        cached == 0 || cached > 3 ==> r is None,
        1 <= cached <= 3 ==> (r matches Some(s) && s.code() == cached),
{
    match AllocatorSelection::from_u8(cached) {
        AllocatorSelection::Uninitialized => None,
        selected => Some(selected),
    }
}

/// The pprof backend in use: the cached one, or on the first call (`cached`
/// uninitialized) the one the environment value selects.
pub fn selected_pprof_backend(cached: PprofBackend, value: Option<&[u8]>) -> (r: PprofBackend)
    ensures
        cached != PprofBackend::Uninitialized ==> r == cached,
        cached == PprofBackend::Uninitialized ==> r == backend_spec(opt_view(value)),
{
    match cached {
        PprofBackend::Uninitialized => read_pprof_backend_env(value),
        backend => backend,
    }
}

/// What the process-wide cache of the environment's sample rate holds:
/// nothing before the variable is read, the fact that it held no valid
/// rate, or the rate it held.
#[derive(Clone, Copy, Debug, PartialEq, Eq, Structural)]
pub enum CachedSampleRate {
    Unread,
    Unset,
    Rate(usize),
}

/// The sample rate that the cache gives: `None` while the variable is
/// unread, `default` when it held no valid rate.
pub open spec fn cached_rate_spec(cached: CachedSampleRate, default: usize) -> Option<usize> {
    match cached {
        CachedSampleRate::Unread => None,
        CachedSampleRate::Unset => Some(default),
        CachedSampleRate::Rate(r) => Some(r),
    }
}

/// The sample rate from the cache, or `None` when the variable still has to
/// be read.
pub fn cached_sample_rate(cached: CachedSampleRate, default: usize) -> (r: Option<usize>)
    ensures
        r == cached_rate_spec(cached, default),
{
    match cached {
        CachedSampleRate::Unread => None,
        CachedSampleRate::Unset => Some(default),
        CachedSampleRate::Rate(r) => Some(r),
    }
}

/// The sample rate that the environment value `value` gives: the parsed
/// rate, or `default` when it is missing or invalid.
pub open spec fn env_rate_spec(value: Option<Seq<u8>>, default: usize) -> usize {
    match value {
        Some(v) => match sample_rate_spec(v) {
            Some(rate) => rate,
            None => default,
        },
        None => default,
    }
}

/// The sample rate that the environment value gives, with what to cache:
/// the parsed rate, or `default` (cached as unset) when the value is
/// missing or invalid.
pub fn pprof_sample_rate(value: Option<&[u8]>, default: usize) -> (r: (usize, CachedSampleRate))
    ensures
        r.0 == env_rate_spec(opt_view(value), default),
        r.1 == match opt_view(value) {
            Some(v) => match sample_rate_spec(v) {
                Some(rate) => CachedSampleRate::Rate(rate),
                None => CachedSampleRate::Unset,
            },
            None => CachedSampleRate::Unset,
        },
{
    let parsed = match value {
        Some(v) => parse_sample_rate(v),
        None => None,
    };
    match parsed {
        Some(rate) => (rate, CachedSampleRate::Rate(rate)),
        None => (default, CachedSampleRate::Unset),
    }
}

/// Law of the sample-rate cache: once the environment was read, the cache
/// gives the rate of that first read, for any value the variable holds
/// (`usize::MAX` included) and whatever it holds later.
pub proof fn law_cached_sample_rate_is_first_read(value: Option<Seq<u8>>, default: usize)
    ensures
        ({
            let cached = match value {
                Some(v) => match sample_rate_spec(v) {
                    Some(rate) => CachedSampleRate::Rate(rate),
                    None => CachedSampleRate::Unset,
                },
                None => CachedSampleRate::Unset,
            };
            cached_rate_spec(cached, default) == Some(env_rate_spec(value, default))
        }),
{
}

} // verus!
