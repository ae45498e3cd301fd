//! The pprof profile model: stacks with their sample values, the string
//! table of the protobuf encoding, shared-object mappings, and the parser of
//! jemalloc's textual heap profiles.
//!
//! Encoding the protobuf messages and resolving symbols are left to the
//! caller; the encoding is compressed here, with flate2.
use crate::stats::Allocations;
use crate::text::{
    lines, lines_of, parse_u64_range, parse_uint, range_eq_str, split_ascii_whitespace_chars,
    split_ascii_ws, str_chars, string_from_chars, string_from_range, trim, trim_chars, views,
};
use crate::proto::{Function, Label, Line, Location, Profile, ProtoMapping, Sample, ValueType};
use crate::tracker::HeapSampleValues;
use flate2::write::GzEncoder;
use flate2::Compression;
use std::collections::BTreeMap;
use std::io::Write;
use vstd::prelude::*;

pub mod mappings;

verus! {

broadcast use vstd::laws_cmp::group_laws_cmp;

/// Whether `name` is a function of this crate, whose frames are left out of
/// exported profiles.
pub open spec fn internal_function_spec(name: Seq<char>) -> bool {
    name.len() >= 13 && name.take(13) == "pprof_alloc::"@
}

/// Whether `function_name` names a function of this crate: one whose path
/// starts with `pprof_alloc::`.
pub fn is_pprof_alloc_internal_function(function_name: &str) -> (r: bool)
    ensures
        r == internal_function_spec(function_name@),
{
    let name = str_chars(function_name);
    let prefix = str_chars("pprof_alloc::");
    proof {
        reveal_strlit("pprof_alloc::");
    }
    if name.len() < prefix.len() {
        return false;
    }
    let mut i: usize = 0;
    while i < prefix.len()
        invariant
            prefix@ == "pprof_alloc::"@,
            prefix.len() == 13,
            name@ == function_name@,
            name.len() >= 13,
            i <= 13,
            forall|j: int| 0 <= j < i ==> name@[j] == prefix@[j],
        decreases 13 - i,
    {
        if name[i] != prefix[i] {
            assert(name@.take(13)[i as int] != "pprof_alloc::"@[i as int]);
            return false;
        }
        i = i + 1;
    }
    assert(name@.take(13) =~= "pprof_alloc::"@);
    true
}

/// Whether the texts of `v` are pairwise different.
pub open spec fn distinct_texts(v: Seq<Seq<char>>) -> bool {
    forall|i: int, j: int| 0 <= i < j < v.len() ==> v[i] != v[j]
}

/// The texts held by a sequence of strings.
pub open spec fn texts(v: Seq<String>) -> Seq<Seq<char>> {
    v.map_values(|s: String| s@)
}

/// The string table of a pprof profile: each text once, at the index by
/// which the profile refers to it; index 0 is the empty text.
pub struct StringTable {
    strings: Vec<String>,
}

impl View for StringTable {
    type V = Seq<Seq<char>>;

    closed spec fn view(&self) -> Seq<Seq<char>> {
        texts(self.strings@)
    }
}

fn string_eq(a: &String, b: &str) -> (r: bool)
    ensures
        r == (a@ == b@),
{
    let x = str_chars(a.as_str());
    let y = str_chars(b);
    if x.len() != y.len() {
        return false;
    }
    let mut i: usize = 0;
    while i < x.len()
        invariant
            x.len() == y.len(),
            x@ == a@,
            y@ == b@,
            i <= x.len(),
            forall|j: int| 0 <= j < i ==> x@[j] == y@[j],
        decreases x.len() - i,
    {
        if x[i] != y[i] {
            return false;
        }
        i = i + 1;
    }
    assert(x@ =~= y@);
    true
}

/// The index of the first string of `v` holding `a`.
fn position_of(v: &Vec<String>, a: &str) -> (r: Option<usize>)
    ensures
        match r {
            Some(k) => k < v@.len() && v@[k as int]@ == a@,
            None => forall|j: int| 0 <= j < v@.len() ==> v@[j]@ != a@,
        },
{
    let mut i: usize = 0;
    while i < v.len()
        invariant
            i <= v.len(),
            forall|j: int| 0 <= j < i ==> v@[j]@ != a@,
        decreases v.len() - i,
    {
        if string_eq(&v[i], a) {
            return Some(i);
        }
        i = i + 1;
    }
    None
}

impl StringTable {
    /// The table's texts are distinct and it starts with the empty text.
    pub closed spec fn wf(&self) -> bool {
        &&& self@.len() >= 1
        &&& self@[0] == Seq::<char>::empty()
        &&& distinct_texts(self@)
    }

    /// A table holding only the empty text.
    pub fn new() -> (r: StringTable)
        ensures
            r.wf(),
            r@ == seq![Seq::<char>::empty()],
    {
        let mut strings: Vec<String> = Vec::new();
        strings.push(String::new());
        let r = StringTable { strings };
        assert(r@ =~= seq![Seq::<char>::empty()]);
        r
    }

    /// The index of `s` in the table, appending it first when it is not
    /// there yet.
    pub fn insert(&mut self, s: &str) -> (r: i64)
        requires
            old(self).wf(),
            old(self)@.len() <= i64::MAX,
        ensures
            final(self).wf(),
            0 <= r < final(self)@.len(),
            final(self)@[r as int] == s@,
            old(self)@.contains(s@) ==> final(self)@ == old(self)@,
            !old(self)@.contains(s@) ==> final(self)@ == old(self)@.push(s@),
            old(self)@.len() <= final(self)@.len() <= old(self)@.len() + 1,
            forall|k: int| 0 <= k < old(self)@.len() ==> #[trigger] final(self)@[k] == old(self)@[k],
    {
        let mut i: usize = 0;
        while i < self.strings.len()
            invariant
                i <= self.strings.len(),
                self.wf(),
                self@ == old(self)@,
                self@.len() <= i64::MAX,
                forall|j: int| 0 <= j < i ==> self@[j] != s@,
            decreases self.strings.len() - i,
        {
            if string_eq(&self.strings[i], s) {
                assert(self@[i as int] == s@);
                return i as i64;
            }
            i = i + 1;
        }
        assert(!self@.contains(s@));
        let idx = self.strings.len() as i64;
        self.strings.push(String::from_str(s));
        assert(self@ =~= old(self)@.push(s@));
        idx
    }

    /// The texts of the table in index order.
    pub fn finish(self) -> (r: Vec<String>)
        ensures
            texts(r@) == self@,
    {
        self.strings
    }
}

/// A single sample in the profile: a stack of addresses, leaf first, with
/// one value per sample type.
#[derive(Clone, Debug)]
pub struct WeightedStack {
    pub addrs: Vec<u64>,
    pub values: Vec<i64>,
}

/// A minimal profile: annotated stacks and the shared objects they lie in.
pub struct StackProfile {
    pub annotations: Vec<String>,
    /// Each stack with the index of its annotation in `annotations`.
    pub stacks: Vec<(WeightedStack, Option<usize>)>,
    pub mappings: Vec<Mapping>,
}

impl StackProfile {
    /// A profile with no stacks over the given mappings.
    pub fn new(mappings: Vec<Mapping>) -> (r: StackProfile)
        ensures
            r.annotations@.len() == 0,
            r.stacks@.len() == 0,
            r.mappings@ == mappings@,
    {
        StackProfile { annotations: Vec::new(), stacks: Vec::new(), mappings }
    }

    /// Appends `stack`, with `annotation` (added to the annotations once)
    /// when there is one.
    pub fn push_stack(&mut self, stack: WeightedStack, annotation: Option<&str>)
        requires
            distinct_texts(texts(old(self).annotations@)),
        ensures
            distinct_texts(texts(final(self).annotations@)),
            final(self).mappings@ == old(self).mappings@,
            final(self).stacks@.len() == old(self).stacks@.len() + 1,
            final(self).stacks@.drop_last() == old(self).stacks@,
            final(self).stacks@.last().0.addrs@ == stack.addrs@,
            final(self).stacks@.last().0.values@ == stack.values@,
            match annotation {
                None => final(self).stacks@.last().1 is None && final(self).annotations@
                    == old(self).annotations@,
                Some(a) => {
                    let fin = final(self).annotations@;
                    &&& (final(self).stacks@.last().1 matches Some(k) && 0 <= k < fin.len()
                        && fin[k as int]@ == a@)
                    &&& texts(old(self).annotations@).contains(a@) ==> fin == old(self).annotations@
                    &&& !texts(old(self).annotations@).contains(a@) ==> texts(fin) == texts(
                        old(self).annotations@,
                    ).push(a@)
                },
            },
    {
        let anno_idx = match annotation {
            None => None,
            Some(a) => {
                let found = position_of(&self.annotations, a);
                match found {
                    Some(k) => {
                        assert(texts(old(self).annotations@).contains(a@)) by {
                            assert(texts(old(self).annotations@)[k as int] == a@);
                        }
                        Some(k)
                    },
                    None => {
                        assert(!texts(old(self).annotations@).contains(a@)) by {
                            if texts(old(self).annotations@).contains(a@) {
                                let j = choose|j: int|
                                    0 <= j < texts(old(self).annotations@).len() && texts(
                                        old(self).annotations@,
                                    )[j] == a@;
                                assert(self.annotations@[j]@ == a@);
                            }
                        }
                        self.annotations.push(String::from_str(a));
                        assert(texts(self.annotations@) =~= texts(old(self).annotations@).push(
                            a@,
                        ));
                        Some(self.annotations.len() - 1)
                    },
                }
            },
        };
        self.stacks.push((stack, anno_idx));
        assert(self.stacks@.drop_last() =~= old(self).stacks@);
    }
}

/// Build ID of a shared object.
#[derive(Clone, Debug, PartialEq, Eq)]
pub struct BuildId(pub Vec<u8>);

/// The lowercase hexadecimal digit for `d` (below 16).
pub open spec fn hex_digit(d: int) -> char {
    if d < 10 {
        (48 + d) as char
    } else {
        (87 + d) as char
    }
}

/// Two lowercase hexadecimal digits per byte.
pub open spec fn hex_text(bytes: Seq<u8>) -> Seq<char>
    decreases bytes.len(),
{
    if bytes.len() == 0 {
        Seq::empty()
    } else {
        hex_text(bytes.drop_last()).push(hex_digit((bytes.last() / 16) as int)).push(
            hex_digit((bytes.last() % 16) as int),
        )
    }
}

fn hex_char(d: u8) -> (r: char)
    requires
        d < 16,
    ensures
        r == hex_digit(d as int),
{
    let table = str_chars("0123456789abcdef");
    proof {
        reveal_strlit("0123456789abcdef");
    }
    table[d as usize]
}

impl BuildId {
    /// The build ID as lowercase hexadecimal, two digits per byte.
    pub fn to_hex(&self) -> (r: String)
        ensures
            r@ == hex_text(self.0@),
    {
        let mut out = String::new();
        let mut i: usize = 0;
        while i < self.0.len()
            invariant
                i <= self.0.len(),
                out@ == hex_text(self.0@.take(i as int)),
            decreases self.0.len() - i,
        {
            let b = self.0[i];
            assert(self.0@.take(i + 1).drop_last() =~= self.0@.take(i as int));
            assert(self.0@.take(i + 1).last() == b);
            crate::text::string_push(&mut out, hex_char(b / 16));
            crate::text::string_push(&mut out, hex_char(b % 16));
            i = i + 1;
        }
        assert(self.0@.take(i as int) =~= self.0@);
        out
    }
}

/// A mapping of a single shared object.
#[derive(Clone, Debug)]
pub struct Mapping {
    pub memory_start: usize,
    pub memory_end: usize,
    pub file_offset: u64,
    pub pathname: String,
    pub build_id: Option<BuildId>,
}

/// Whether the span `[memory_start, memory_end)` of `m` holds `addr`.
pub open spec fn holds_address(m: Mapping, addr: u64) -> bool {
    m.memory_start <= addr < m.memory_end
}

/// The index of the first mapping whose span `[memory_start, memory_end)`
/// holds `addr`.
pub fn find_mapping(mappings: &Vec<Mapping>, addr: u64) -> (r: Option<usize>)
    ensures
        match r {
            Some(i) => i < mappings@.len() && mappings@[i as int].memory_start <= addr
                < mappings@[i as int].memory_end && forall|j: int|
                0 <= j < i ==> !holds_address(#[trigger] mappings@[j], addr),
            None => forall|j: int|
                0 <= j < mappings@.len() ==> !holds_address(#[trigger] mappings@[j], addr),
        },
{
    let mut i: usize = 0;
    while i < mappings.len()
        invariant
            i <= mappings.len(),
            forall|j: int|
                0 <= j < i ==> !holds_address(#[trigger] mappings@[j], addr),
        decreases mappings.len() - i,
    {
        let m = &mappings[i];
        if (m.memory_start as u64) <= addr && addr < (m.memory_end as u64) {
            return Some(i);
        }
        i = i + 1;
    }
    None
}

/// The address of `addr` relative to the file of the first mapping of `m`
/// that holds it, or `addr` itself when none does.
pub open spec fn relative_spec(m: Seq<Mapping>, addr: u64) -> u64
    decreases m.len(),
{
    if m.len() == 0 {
        addr
    } else if holds_address(m[0], addr) {
        (addr - m[0].memory_start + m[0].file_offset) as u64
    } else {
        relative_spec(m.drop_first(), addr)
    }
}

proof fn lemma_relative_first(m: Seq<Mapping>, addr: u64, i: int)
    requires
        0 <= i < m.len(),
        holds_address(m[i], addr),
        forall|j: int| 0 <= j < i ==> !holds_address(#[trigger] m[j], addr),
    ensures
        relative_spec(m, addr) == (addr - m[i].memory_start + m[i].file_offset) as u64,
    decreases i,
{
    if i > 0 {
        assert forall|j: int| 0 <= j < i - 1 implies !holds_address(#[trigger] m.drop_first()[j], addr) by {
            assert(m.drop_first()[j] == m[j + 1]);
        }
        lemma_relative_first(m.drop_first(), addr, i - 1);
    }
}

proof fn lemma_relative_none(m: Seq<Mapping>, addr: u64)
    requires
        forall|j: int| 0 <= j < m.len() ==> !holds_address(#[trigger] m[j], addr),
    ensures
        relative_spec(m, addr) == addr,
    decreases m.len(),
{
    if m.len() > 0 {
        assert(!holds_address(m[0], addr));
        assert forall|j: int| 0 <= j < m.len() - 1 implies !holds_address(#[trigger] m.drop_first()[j], addr) by {
            assert(m.drop_first()[j] == m[j + 1]);
        }
        lemma_relative_none(m.drop_first(), addr);
    }
}

/// The number (position plus one) of the first mapping of `m` that holds
/// `addr`, or zero when none does.
pub open spec fn mapping_number(m: Seq<Mapping>, addr: u64) -> int
    decreases m.len(),
{
    if m.len() == 0 {
        0
    } else if holds_address(m[0], addr) {
        1
    } else {
        let r = mapping_number(m.drop_first(), addr);
        if r == 0 {
            0
        } else {
            r + 1
        }
    }
}

proof fn lemma_mapping_number_first(m: Seq<Mapping>, addr: u64, i: int)
    requires
        0 <= i < m.len(),
        holds_address(m[i], addr),
        forall|j: int| 0 <= j < i ==> !holds_address(#[trigger] m[j], addr),
    ensures
        mapping_number(m, addr) == i + 1,
    decreases i,
{
    if i > 0 {
        assert forall|j: int| 0 <= j < i - 1 implies !holds_address(#[trigger] m.drop_first()[j], addr) by {
            assert(m.drop_first()[j] == m[j + 1]);
        }
        assert(!holds_address(m[0], addr));
        lemma_mapping_number_first(m.drop_first(), addr, i - 1);
    }
}

proof fn lemma_mapping_number_none(m: Seq<Mapping>, addr: u64)
    requires
        forall|j: int| 0 <= j < m.len() ==> !holds_address(#[trigger] m[j], addr),
    ensures
        mapping_number(m, addr) == 0,
    decreases m.len(),
{
    if m.len() > 0 {
        assert(!holds_address(m[0], addr));
        assert forall|j: int| 0 <= j < m.len() - 1 implies !holds_address(#[trigger] m.drop_first()[j], addr) by {
            assert(m.drop_first()[j] == m[j + 1]);
        }
        lemma_mapping_number_none(m.drop_first(), addr);
    }
}

/// The address of `addr` relative to the file of the first mapping that
/// holds it (its offset in the mapping plus the mapping's file offset), or
/// `addr` itself when no mapping holds it.
pub fn file_relative_address(mappings: &Vec<Mapping>, addr: u64) -> (r: (Option<usize>, u64))
    requires
        forall|j: int|
            0 <= j < mappings@.len() ==> (#[trigger] mappings@[j]).memory_end - mappings@[j].memory_start
                + mappings@[j].file_offset <= u64::MAX,
    ensures
        match r.0 {
            Some(i) => i < mappings@.len() && mappings@[i as int].memory_start <= addr
                < mappings@[i as int].memory_end && (forall|j: int|
                0 <= j < i ==> !holds_address(#[trigger] mappings@[j], addr))
                && r.1 == addr - mappings@[i as int].memory_start
                + mappings@[i as int].file_offset,
            None => r.1 == addr && forall|j: int|
                0 <= j < mappings@.len() ==> !holds_address(#[trigger] mappings@[j], addr),
        },
        r.1 == relative_spec(mappings@, addr),
        mapping_number(mappings@, addr) == match r.0 {
            Some(i) => i + 1,
            None => 0,
        },
{
    match find_mapping(mappings, addr) {
        Some(i) => {
            let m = &mappings[i];
            let rel = (addr - m.memory_start as u64) + m.file_offset;
            proof {
                lemma_relative_first(mappings@, addr, i as int);
                lemma_mapping_number_first(mappings@, addr, i as int);
            }
            (Some(i), rel)
        },
        None => {
            proof {
                lemma_relative_none(mappings@, addr);
                lemma_mapping_number_none(mappings@, addr);
            }
            (None, addr)
        },
    }
}

/// Whether a stack's values are all zero (it is left out of profiles).
pub open spec fn all_zero(v: HeapSampleValues) -> bool {
    v.alloc_space == 0 && v.inuse_space == 0 && v.alloc_objects == 0 && v.inuse_objects == 0
}

/// The four sample values of a stack in the order of the profile's sample
/// types: allocated objects and bytes, live objects and bytes.
pub open spec fn sample_values(v: HeapSampleValues) -> Seq<i64> {
    seq![v.alloc_objects, v.alloc_space, v.inuse_objects, v.inuse_space]
}

/// The stacks of a heap profile: each recorded stack whose values are not
/// all zero, with those values, in the order given; `values[i]` holds the
/// values of `entries[i]`.
pub open spec fn heap_stacks_spec(
    entries: Seq<(Vec<u64>, Allocations)>,
    values: Seq<HeapSampleValues>,
) -> Seq<(Seq<u64>, Seq<i64>)>
    decreases entries.len(),
{
    if entries.len() == 0 || values.len() == 0 {
        Seq::empty()
    } else {
        let rest = heap_stacks_spec(entries.drop_last(), values.drop_last());
        if all_zero(values.last()) {
            rest
        } else {
            rest.push((entries.last().0@, sample_values(values.last())))
        }
    }
}

/// Law of heap profiles: no recorded stack gives no stack; a recorded stack
/// added last is exported after the stacks before it exactly when one of
/// its figures is non-zero, with its addresses and its values in the order
/// of the sample types: allocated objects, allocated bytes, live objects,
/// live bytes.
pub proof fn law_heap_stack_values_follow_sample_types(
    entries: Seq<(Vec<u64>, Allocations)>,
    values: Seq<HeapSampleValues>,
    e: (Vec<u64>, Allocations),
    v: HeapSampleValues,
)
    requires
        entries.len() == values.len(),
    ensures
        heap_stacks_spec(Seq::empty(), Seq::empty()) == Seq::<(Seq<u64>, Seq<i64>)>::empty(),
        heap_stacks_spec(entries.push(e), values.push(v)) == heap_stacks_spec(entries, values) + if v.alloc_objects
            == 0 && v.alloc_space == 0 && v.inuse_objects == 0 && v.inuse_space == 0 {
            Seq::<(Seq<u64>, Seq<i64>)>::empty()
        } else {
            seq![(e.0@, seq![v.alloc_objects, v.alloc_space, v.inuse_objects, v.inuse_space])]
        },
{
    assert(entries.push(e).drop_last() =~= entries);
    assert(values.push(v).drop_last() =~= values);
    let rest = heap_stacks_spec(entries, values);
    assert(rest + Seq::<(Seq<u64>, Seq<i64>)>::empty() =~= rest);
    assert(rest.push((e.0@, sample_values(v))) =~= rest + seq![(e.0@, sample_values(v))]);
}

/// The addresses and values of the stacks of a profile.
pub open spec fn stack_views(s: Seq<(WeightedStack, Option<usize>)>) -> Seq<(Seq<u64>, Seq<i64>)> {
    s.map_values(|e: (WeightedStack, Option<usize>)| (e.0.addrs@, e.0.values@))
}

/// The heap profile of the recorded stacks (see [`heap_stacks_spec`]), over
/// the given mappings and with no annotations.
pub fn heap_profile(
    entries: &Vec<(Vec<u64>, Allocations)>,
    values: &Vec<HeapSampleValues>,
    mappings: Vec<Mapping>,
) -> (r: StackProfile)
    requires
        entries@.len() == values@.len(),
    ensures
        stack_views(r.stacks@) == heap_stacks_spec(entries@, values@),
        forall|i: int| 0 <= i < r.stacks@.len() ==> (#[trigger] r.stacks@[i]).1 is None,
        r.annotations@.len() == 0,
        r.mappings@ == mappings@,
{
    let mut profile = StackProfile::new(mappings);
    let mut i: usize = 0;
    while i < entries.len()
        invariant
            i <= entries.len(),
            entries@.len() == values@.len(),
            stack_views(profile.stacks@) == heap_stacks_spec(
                entries@.take(i as int),
                values@.take(i as int),
            ),
            forall|k: int| 0 <= k < profile.stacks@.len() ==> (#[trigger] profile.stacks@[k]).1 is None,
            profile.annotations@.len() == 0,
            profile.mappings@ == mappings@,
        decreases entries.len() - i,
    {
        assert(entries@.take(i + 1).drop_last() =~= entries@.take(i as int));
        assert(values@.take(i + 1).drop_last() =~= values@.take(i as int));
        assert(entries@.take(i + 1).last() == entries@[i as int]);
        assert(values@.take(i + 1).last() == values@[i as int]);
        let v = values[i];
        if !(v.alloc_space == 0 && v.inuse_space == 0 && v.alloc_objects == 0 && v.inuse_objects
            == 0) {
            let mut vals: Vec<i64> = Vec::new();
            vals.push(v.alloc_objects);
            vals.push(v.alloc_space);
            vals.push(v.inuse_objects);
            vals.push(v.inuse_space);
            assert(vals@ =~= sample_values(v));
            let addrs = entries[i].0.clone();
            let ghost before = profile.stacks@;
            profile.push_stack(WeightedStack { addrs, values: vals }, None);
            assert(profile.stacks@ =~= before.push(profile.stacks@.last()));
            assert(stack_views(profile.stacks@) =~= stack_views(before).push(
                (entries@[i as int].0@, sample_values(v)),
            ));
        }
        i = i + 1;
    }
    assert(entries@.take(i as int) =~= entries@);
    assert(values@.take(i as int) =~= values@);
    profile
}

/// `s` without every leading `0x`.
pub open spec fn trim_hex_prefix(s: Seq<char>) -> Seq<char>
    decreases s.len(),
{
    if s.len() >= 2 && s[0] == '0' && s[1] == 'x' {
        trim_hex_prefix(s.skip(2))
    } else {
        s
    }
}

/// `s` without every trailing `c`.
pub open spec fn trim_end_char(s: Seq<char>, c: char) -> Seq<char>
    decreases s.len(),
{
    if s.len() > 0 && s.last() == c {
        trim_end_char(s.drop_last(), c)
    } else {
        s
    }
}

/// A stack address of a heap dump: hexadecimal after any `0x`, moved one
/// byte back from the return address to the call.
pub open spec fn dump_address(w: Seq<char>) -> Option<u64> {
    match parse_uint(trim_hex_prefix(w), 16, u64::MAX as int) {
        Some(v) => Some(
            if v == 0 {
                0u64
            } else {
                (v - 1) as u64
            },
        ),
        None => None,
    }
}

/// The addresses of a stack line, or the first word that is no address.
pub open spec fn dump_addresses(ws: Seq<Seq<char>>) -> Result<Seq<u64>, Seq<char>>
    decreases ws.len(),
{
    if ws.len() == 0 {
        Ok(Seq::empty())
    } else {
        match dump_addresses(ws.drop_last()) {
            Err(e) => Err(e),
            Ok(a) => match dump_address(ws.last()) {
                Some(x) => Ok(a.push(x)),
                None => Err(trim_hex_prefix(ws.last())),
            },
        }
    }
}

/// The four counters of a `t*:` line, as texts: current objects and bytes,
/// accumulated objects and bytes (`0` when absent).
pub open spec fn dump_counters(ws: Seq<Seq<char>>) -> (Seq<char>, Seq<char>, Seq<char>, Seq<char>) {
    (
        trim_end_char(ws[1], ':'),
        ws[2],
        trim_end_char(
            if ws.len() > 3 && ws[3].len() > 0 && ws[3][0] == '[' {
                ws[3].drop_first()
            } else {
                "0"@
            },
            ':',
        ),
        if ws.len() > 4 {
            trim_end_char(ws[4], ']')
        } else {
            "0"@
        },
    )
}

/// A stack of a heap dump: its addresses and its four counter texts.
pub type DumpStackView = (Seq<u64>, (Seq<char>, Seq<char>, Seq<char>, Seq<char>));

/// Why a heap dump stops being read.
#[derive(Clone, Debug, PartialEq, Eq)]
pub enum HeapDumpError {
    /// The dump holds no line.
    Empty,
    /// The first line is not a `heap_v2/<rate>` header; it is kept whole.
    UnsupportedHeader(String),
    /// A stack address is not hexadecimal; the word (after any `0x`) is kept.
    BadAddress(String),
    /// A stack line came without a counter line after it.
    StackWithoutCounters,
}

/// A dump error taken by the texts it keeps.
pub ghost enum DumpErrorView {
    Empty,
    UnsupportedHeader(Seq<char>),
    BadAddress(Seq<char>),
    StackWithoutCounters,
}

pub open spec fn error_view(e: HeapDumpError) -> DumpErrorView {
    match e {
        HeapDumpError::Empty => DumpErrorView::Empty,
        HeapDumpError::UnsupportedHeader(l) => DumpErrorView::UnsupportedHeader(l@),
        HeapDumpError::BadAddress(w) => DumpErrorView::BadAddress(w@),
        HeapDumpError::StackWithoutCounters => DumpErrorView::StackWithoutCounters,
    }
}

/// The stacks that the lines of a heap dump's body give, read from the
/// front with `current` the stack still waiting for its counters, and the
/// error that ends the reading, if any. Blank lines and lines of other
/// kinds are skipped; a counter line without a stack before it is skipped.
pub open spec fn dump_body(lines: Seq<Seq<char>>, current: Option<Seq<u64>>) -> (
    Seq<DumpStackView>,
    Option<DumpErrorView>,
)
    decreases lines.len(),
{
    if lines.len() == 0 {
        (Seq::empty(), if current is Some {
            Some(DumpErrorView::StackWithoutCounters)
        } else {
            None
        })
    } else {
        let ws = split_ascii_ws(lines[0]);
        let rest = lines.drop_first();
        if ws.len() == 0 {
            dump_body(rest, current)
        } else if ws[0] == "@"@ {
            if current is Some {
                (Seq::empty(), Some(DumpErrorView::StackWithoutCounters))
            } else {
                match dump_addresses(ws.drop_first()) {
                    Err(w) => (Seq::empty(), Some(DumpErrorView::BadAddress(w))),
                    Ok(a) => dump_body(rest, Some(a)),
                }
            }
        } else if ws.len() > 2 && ws[0] == "t*:"@ {
            match current {
                None => dump_body(rest, None),
                Some(a) => {
                    let r = dump_body(rest, None);
                    (seq![(a, dump_counters(ws))] + r.0, r.1)
                },
            }
        } else {
            dump_body(rest, current)
        }
    }
}

/// Law of heap-dump bodies: a stack line (`@` and its addresses) directly
/// followed by a counter line (`t*:` and at least two counters) gives one
/// stack, with those addresses and counters, whatever the counters say,
/// ahead of what the remaining lines give.
pub proof fn law_stack_line_with_counters_gives_one_stack(
    stack_line: Seq<char>,
    counter_line: Seq<char>,
    rest: Seq<Seq<char>>,
    addrs: Seq<u64>,
)
    requires
        split_ascii_ws(stack_line).len() > 0,
        split_ascii_ws(stack_line)[0] == "@"@,
        dump_addresses(split_ascii_ws(stack_line).drop_first()) == Ok::<Seq<u64>, Seq<char>>(addrs),
        split_ascii_ws(counter_line).len() > 2,
        split_ascii_ws(counter_line)[0] == "t*:"@,
    ensures
        ({
            let r = dump_body(seq![stack_line, counter_line] + rest, None);
            let after = dump_body(rest, None);
            &&& r.0.len() == after.0.len() + 1
            &&& r.0[0].0 == addrs
            &&& r.0[0].1 == dump_counters(split_ascii_ws(counter_line))
            &&& r.0.drop_first() == after.0
            &&& r.1 == after.1
        }),
{
    let ls = seq![stack_line, counter_line] + rest;
    assert(ls[0] == stack_line);
    assert(ls.drop_first() =~= seq![counter_line] + rest);
    assert((seq![counter_line] + rest)[0] == counter_line);
    assert((seq![counter_line] + rest).drop_first() =~= rest);
    reveal_strlit("@");
    reveal_strlit("t*:");
    assert("@"@ != "t*:"@) by {
        assert("@"@.len() != "t*:"@.len());
    }
    let after = dump_body(rest, None);
    let tail = seq![counter_line] + rest;
    assert(split_ascii_ws(tail[0])[0] != "@"@);
    assert(dump_body(tail, Some(addrs)) == (
        seq![(addrs, dump_counters(split_ascii_ws(counter_line)))] + after.0,
        after.1,
    ));
    assert(dump_body(ls, None) == dump_body(tail, Some(addrs)));
    let r = dump_body(ls, None);
    assert((seq![(addrs, dump_counters(split_ascii_ws(counter_line)))] + after.0).drop_first() =~= after.0);
}

/// Law of counter lines: the words `t*:`, `a:`, `b`, `[c:`, `d]` give the
/// current objects `a`, current bytes `b`, accumulated objects `c` and
/// accumulated bytes `d` (each written without the trailing mark); with the
/// accumulated pair left out, both read as `0`.
pub proof fn law_counter_words_give_the_counters(
    ws: Seq<Seq<char>>,
    a: Seq<char>,
    b: Seq<char>,
    c: Seq<char>,
    d: Seq<char>,
)
    requires
        ws.len() == 5 || ws.len() == 3,
        a.len() == 0 || a.last() != ':',
        c.len() == 0 || c.last() != ':',
        d.len() == 0 || d.last() != ']',
        ws[1] == a.push(':'),
        ws[2] == b,
        ws.len() == 5 ==> ws[3] == seq!['['] + c.push(':') && ws[4] == d.push(']'),
    ensures
        ws.len() == 5 ==> dump_counters(ws) == (a, b, c, d),
        ws.len() == 3 ==> dump_counters(ws) == (a, b, "0"@, "0"@),
{
    assert(a.push(':').drop_last() =~= a);
    assert(trim_end_char(a.push(':'), ':') == trim_end_char(a, ':'));
    if ws.len() == 5 {
        assert((seq!['['] + c.push(':')).drop_first() =~= c.push(':'));
        assert(c.push(':').drop_last() =~= c);
        assert(trim_end_char(c.push(':'), ':') == trim_end_char(c, ':'));
        assert(d.push(']').drop_last() =~= d);
        assert(trim_end_char(d.push(']'), ']') == trim_end_char(d, ']'));
    } else {
        reveal_strlit("0");
        assert(trim_end_char("0"@, ':') == "0"@);
    }
}

/// Law of heap-dump bodies: a blank line changes nothing.
pub proof fn law_blank_lines_are_skipped(line: Seq<char>, rest: Seq<Seq<char>>, current: Option<Seq<u64>>)
    requires
        split_ascii_ws(line).len() == 0,
    ensures
        dump_body(seq![line] + rest, current) == dump_body(rest, current),
{
    assert((seq![line] + rest)[0] == line);
    assert((seq![line] + rest).drop_first() =~= rest);
}

/// The addresses of a stack waiting for its counters.
pub open spec fn opt_addrs(c: Option<Vec<u64>>) -> Option<Seq<u64>> {
    match c {
        Some(v) => Some(v@),
        None => None,
    }
}

/// One stack of a heap dump with its counters as written.
#[derive(Clone, Debug)]
pub struct DumpStack {
    pub addrs: Vec<u64>,
    pub current_objects: String,
    pub current_bytes: String,
    pub accumulated_objects: String,
    pub accumulated_bytes: String,
}

pub open spec fn dump_stack_view(d: DumpStack) -> DumpStackView {
    (d.addrs@, (d.current_objects@, d.current_bytes@, d.accumulated_objects@, d.accumulated_bytes@))
}

pub open spec fn dump_stack_views(v: Seq<DumpStack>) -> Seq<DumpStackView> {
    v.map_values(|d: DumpStack| dump_stack_view(d))
}

/// A heap dump read up to its end or its first error: the sample rate as
/// written in the header, the stacks in order, and the error that stopped
/// the reading (the stacks before it are still given, so that errors in
/// their counters come first).
#[derive(Clone, Debug)]
pub struct HeapDump {
    pub sampling_rate: String,
    pub stacks: Vec<DumpStack>,
    pub error: Option<HeapDumpError>,
}

/// What a heap dump `text` reads as: its header's rate text and the
/// result of [`dump_body`] on the lines after the header.
pub open spec fn heap_dump_spec(text: Seq<char>) -> Result<
    (Seq<char>, Seq<DumpStackView>, Option<DumpErrorView>),
    DumpErrorView,
> {
    let ls = lines(text);
    if ls.len() == 0 {
        Err(DumpErrorView::Empty)
    } else {
        let first = trim(ls[0]);
        if first.len() >= 8 && first.take(8) == "heap_v2/"@ {
            let body = dump_body(ls.drop_first(), None);
            Ok((first.skip(8), body.0, body.1))
        } else {
            Err(DumpErrorView::UnsupportedHeader(ls[0]))
        }
    }
}

fn trim_hex_prefix_at(w: &Vec<char>) -> (r: usize)
    ensures
        r <= w.len(),
        w@.skip(r as int) == trim_hex_prefix(w@),
{
    let mut i: usize = 0;
    assert(w@.skip(0) =~= w@);
    while w.len() - i >= 2 && w[i] == '0' && w[i + 1] == 'x'
        invariant
            i <= w.len(),
            trim_hex_prefix(w@.skip(i as int)) == trim_hex_prefix(w@),
        decreases w.len() - i,
    {
        assert(w@.skip(i as int).skip(2) =~= w@.skip(i + 2));
        i = i + 2;
    }
    i
}

fn trim_end_at(w: &Vec<char>, lo: usize, c: char) -> (r: usize)
    requires
        lo <= w.len(),
    ensures
        lo <= r <= w.len(),
        w@.subrange(lo as int, r as int) == trim_end_char(w@.subrange(lo as int, w.len() as int), c),
{
    let mut k = w.len();
    while k > lo && w[k - 1] == c
        invariant
            lo <= k <= w.len(),
            trim_end_char(w@.subrange(lo as int, k as int), c) == trim_end_char(
                w@.subrange(lo as int, w.len() as int),
                c,
            ),
        decreases k,
    {
        assert(w@.subrange(lo as int, k as int).drop_last() =~= w@.subrange(lo as int, k - 1));
        k = k - 1;
    }
    k
}

fn read_addresses(ws: &Vec<Vec<char>>) -> (r: Result<Vec<u64>, String>)
    requires
        ws@.len() >= 1,
    ensures
        match r {
            Ok(a) => dump_addresses(views(ws@).drop_first()) == Ok::<Seq<u64>, Seq<char>>(a@),
            Err(e) => dump_addresses(views(ws@).drop_first()) == Err::<Seq<u64>, Seq<char>>(e@),
        },
{
    let mut out: Vec<u64> = Vec::new();
    let mut i: usize = 1;
    let ghost all = views(ws@).drop_first();
    while i < ws.len()
        invariant
            1 <= i <= ws.len(),
            all == views(ws@).drop_first(),
            dump_addresses(all.take(i - 1)) == Ok::<Seq<u64>, Seq<char>>(out@),
        decreases ws.len() - i,
    {
        let w = &ws[i];
        assert(all.take(i as int).drop_last() =~= all.take(i - 1));
        assert(all.take(i as int).last() == w@);
        let lo = trim_hex_prefix_at(w);
        assert(w@.subrange(lo as int, w.len() as int) =~= w@.skip(lo as int));
        match parse_u64_range(w, lo, w.len(), 16) {
            Some(v) => {
                out.push(if v == 0 {
                    0
                } else {
                    v - 1
                });
            },
            None => {
                let bad = string_from_range(w, lo, w.len());
                proof {
                    lemma_dump_addresses_error(all, i as int);
                }
                return Err(bad);
            },
        }
        i = i + 1;
    }
    assert(all.take(i - 1) =~= all);
    Ok(out)
}

proof fn lemma_dump_addresses_error(ws: Seq<Seq<char>>, k: int)
    requires
        0 < k <= ws.len(),
        dump_addresses(ws.take(k)) is Err,
    ensures
        dump_addresses(ws) == dump_addresses(ws.take(k)),
    decreases ws.len() - k,
{
    if k < ws.len() {
        assert(ws.take(k + 1).drop_last() =~= ws.take(k));
        lemma_dump_addresses_error(ws, k + 1);
    } else {
        assert(ws.take(k) =~= ws);
    }
}

fn read_counters(ws: &Vec<Vec<char>>) -> (r: DumpStack)
    requires
        ws@.len() > 2,
    ensures
        dump_stack_view(r).1 == dump_counters(views(ws@)),
        r.addrs@.len() == 0,
{
    let ghost v = views(ws@);
    let w1 = &ws[1];
    let e1 = trim_end_at(w1, 0, ':');
    assert(w1@.subrange(0, w1.len() as int) =~= w1@);
    let current_objects = string_from_range(w1, 0, e1);
    let current_bytes = string_from_chars(&ws[2]);
    let zero = str_chars("0");
    proof {
        reveal_strlit("0");
    }
    let accumulated_objects = if ws.len() > 3 && ws[3].len() > 0 && ws[3][0] == '[' {
        let w3 = &ws[3];
        let e3 = trim_end_at(w3, 1, ':');
        assert(w3@.subrange(1, w3.len() as int) =~= w3@.drop_first());
        string_from_range(w3, 1, e3)
    } else {
        let e0 = trim_end_at(&zero, 0, ':');
        assert(zero@.subrange(0, 1) =~= zero@);
        string_from_range(&zero, 0, e0)
    };
    let accumulated_bytes = if ws.len() > 4 {
        let w4 = &ws[4];
        let e4 = trim_end_at(w4, 0, ']');
        assert(w4@.subrange(0, w4.len() as int) =~= w4@);
        string_from_range(w4, 0, e4)
    } else {
        string_from_chars(&zero)
    };
    DumpStack {
        addrs: Vec::new(),
        current_objects,
        current_bytes,
        accumulated_objects,
        accumulated_bytes,
    }
}

/// Reads jemalloc's textual `heap_v2` heap profile: the header's sample
/// rate, then each stack line (`@` and its addresses) with the counter
/// line (`t*:`) that follows it. The counters are kept as written; turning
/// them into scaled estimates is left to the caller.
pub fn parse_jemalloc_heap_profile(text: &str) -> (r: Result<HeapDump, HeapDumpError>)
    ensures
        match r {
            Ok(d) => heap_dump_spec(text@) == Ok::<
                (Seq<char>, Seq<DumpStackView>, Option<DumpErrorView>),
                DumpErrorView,
            >(
                (
                    d.sampling_rate@,
                    dump_stack_views(d.stacks@),
                    match d.error {
                        Some(e) => Some(error_view(e)),
                        None => None,
                    },
                ),
            ),
            Err(e) => heap_dump_spec(text@) == Err::<
                (Seq<char>, Seq<DumpStackView>, Option<DumpErrorView>),
                DumpErrorView,
            >(error_view(e)),
        },
{
    let chars = str_chars(text);
    let ls = lines_of(&chars);
    let ghost lv = views(ls@);
    if ls.len() == 0 {
        return Err(HeapDumpError::Empty);
    }
    let first = trim_chars(&ls[0]);
    if !(first.len() >= 8 && range_eq_str(&first, 0, 8, "heap_v2/")) {
        proof {
            if first@.len() >= 8 {
                assert(first@.subrange(0, 8) =~= first@.take(8));
            }
        }
        return Err(HeapDumpError::UnsupportedHeader(string_from_chars(&ls[0])));
    }
    assert(first@.subrange(0, 8) =~= first@.take(8));
    let sampling_rate = string_from_range(&first, 8, first.len());
    assert(first@.subrange(8, first@.len() as int) =~= first@.skip(8));
    let ghost body = lv.drop_first();
    assert(lv == lines(text@));
    assert(heap_dump_spec(text@) == Ok::<
        (Seq<char>, Seq<DumpStackView>, Option<DumpErrorView>),
        DumpErrorView,
    >((sampling_rate@, dump_body(body, None).0, dump_body(body, None).1)));
    let mut stacks: Vec<DumpStack> = Vec::new();
    let mut current: Option<Vec<u64>> = None;
    let mut i: usize = 1;
    assert(body.skip(0) =~= body);
    assert(dump_stack_views(stacks@) + dump_body(body, None).0 =~= dump_body(body, None).0);
    while i < ls.len()
        invariant
            1 <= i <= ls.len(),
            lv == views(ls@),
            body == lv.drop_first(),
            heap_dump_spec(text@) == Ok::<
                (Seq<char>, Seq<DumpStackView>, Option<DumpErrorView>),
                DumpErrorView,
            >((sampling_rate@, dump_body(body, None).0, dump_body(body, None).1)),
            dump_body(body, None) == ({
                let rest = dump_body(body.skip(i - 1), opt_addrs(current));
                (dump_stack_views(stacks@) + rest.0, rest.1)
            }),
        decreases ls.len() - i,
    {
        let ghost tail = body.skip(i - 1);
        assert(tail[0] == ls@[i as int]@);
        assert(tail.drop_first() =~= body.skip(i as int));
        let ws = split_ascii_whitespace_chars(&ls[i]);
        if ws.len() == 0 {
            i = i + 1;
            continue;
        }
        let is_stack = ws[0].len() == 1 && ws[0][0] == '@';
        let is_counts = ws.len() > 2 && ws[0].len() == 3 && ws[0][0] == 't' && ws[0][1] == '*'
            && ws[0][2] == ':';
        proof {
            reveal_strlit("@");
            reveal_strlit("t*:");
            assert(is_stack == (views(ws@)[0] == "@"@)) by {
                if views(ws@)[0] == "@"@ {
                    assert(ws@[0]@[0] == '@');
                }
                if is_stack {
                    assert(views(ws@)[0] =~= "@"@);
                }
            }
            assert(is_counts == (views(ws@).len() > 2 && views(ws@)[0] == "t*:"@)) by {
                if views(ws@).len() > 2 && views(ws@)[0] == "t*:"@ {
                    assert(ws@[0]@[0] == 't' && ws@[0]@[1] == '*' && ws@[0]@[2] == ':');
                }
                if is_counts {
                    assert(views(ws@)[0] =~= "t*:"@);
                }
            }
        }
        assert(split_ascii_ws(tail[0]) == views(ws@));
        if is_stack {
            if current.is_some() {
                assert(dump_body(tail, opt_addrs(current)) == (
                    Seq::<DumpStackView>::empty(),
                    Some(DumpErrorView::StackWithoutCounters),
                ));
                let r = HeapDump {
                    sampling_rate,
                    stacks,
                    error: Some(HeapDumpError::StackWithoutCounters),
                };
                assert(dump_stack_views(r.stacks@) + Seq::<DumpStackView>::empty() =~= dump_stack_views(r.stacks@));
                return Ok(r);
            }
            match read_addresses(&ws) {
                Err(w) => {
                    assert(dump_body(tail, opt_addrs(current)) == (
                        Seq::<DumpStackView>::empty(),
                        Some(DumpErrorView::BadAddress(w@)),
                    ));
                    let r = HeapDump {
                        sampling_rate,
                        stacks,
                        error: Some(HeapDumpError::BadAddress(w)),
                    };
                    assert(dump_stack_views(r.stacks@) + Seq::<DumpStackView>::empty() =~= dump_stack_views(r.stacks@));
                    return Ok(r);
                },
                Ok(a) => {
                    current = Some(a);
                },
            }
        } else if is_counts {
            match current {
                None => {},
                Some(a) => {
                    let mut st = read_counters(&ws);
                    st.addrs = a;
                    let ghost before = stacks@;
                    stacks.push(st);
                    current = None;
                    assert(dump_stack_views(stacks@) =~= dump_stack_views(before).push(dump_stack_view(st)));
                    proof {
                        let rest = dump_body(body.skip(i as int), None);
                        assert(dump_stack_views(stacks@) + rest.0 =~= dump_stack_views(before) + (seq![dump_stack_view(st)] + rest.0));
                    }
                },
            }
        }
        i = i + 1;
    }
    assert(body.skip(i - 1) =~= Seq::<Seq<char>>::empty());
    let error = if current.is_some() {
        Some(HeapDumpError::StackWithoutCounters)
    } else {
        None
    };
    let r = HeapDump { sampling_rate, stacks, error };
    assert(dump_stack_views(r.stacks@) + Seq::<DumpStackView>::empty() =~= dump_stack_views(r.stacks@));
    Ok(r)
}

/// A symbol that an address resolves to: its demangled name, its raw
/// (system) name, its source file and line. An address may resolve to
/// several symbols when calls were inlined there, innermost first.
#[derive(Clone, Debug)]
pub struct ResolvedSymbol {
    pub name: String,
    pub system_name: String,
    pub filename: String,
    pub lineno: i64,
}

/// The symbols that `addr` resolves to in `table`: those of its first
/// entry, none when it has no entry.
pub open spec fn symbols_of(table: Seq<(u64, Vec<ResolvedSymbol>)>, addr: u64) -> Seq<ResolvedSymbol>
    decreases table.len(),
{
    if table.len() == 0 {
        Seq::empty()
    } else if table[0].0 == addr {
        table[0].1@
    } else {
        symbols_of(table.drop_first(), addr)
    }
}

/// Whether `addr` lies in a function of this crate.
pub open spec fn internal_address(table: Seq<(u64, Vec<ResolvedSymbol>)>, addr: u64) -> bool {
    exists|k: int|
        0 <= k < symbols_of(table, addr).len() && #[trigger] internal_function_spec(
            symbols_of(table, addr)[k].name@,
        )
}

/// The addresses of a stack that appear in the exported profile: neither
/// zero nor inside this crate.
pub open spec fn kept_addrs(table: Seq<(u64, Vec<ResolvedSymbol>)>, addrs: Seq<u64>) -> Seq<u64>
    decreases addrs.len(),
{
    if addrs.len() == 0 {
        Seq::empty()
    } else {
        let rest = kept_addrs(table, addrs.drop_last());
        let a = addrs.last();
        if a == 0 || internal_address(table, a) {
            rest
        } else {
            rest.push(a)
        }
    }
}

/// The file-relative forms (for `mappings`) of `addrs`.
pub open spec fn relative_addrs(mappings: Seq<Mapping>, addrs: Seq<u64>) -> Seq<u64> {
    addrs.map_values(|a: u64| relative_spec(mappings, a))
}

/// The addresses that the samples of `stacks` refer to, in order: each
/// stack's kept addresses made file-relative, stack after stack.
pub open spec fn sampled_addresses(
    stacks: Seq<(WeightedStack, Option<usize>)>,
    table: Seq<(u64, Vec<ResolvedSymbol>)>,
    mappings: Seq<Mapping>,
) -> Seq<u64>
    decreases stacks.len(),
{
    if stacks.len() == 0 {
        Seq::empty()
    } else {
        sampled_addresses(stacks.drop_last(), table, mappings) + relative_addrs(
            mappings,
            kept_addrs(table, stacks.last().0.addrs@),
        )
    }
}

/// The distinct values of `s`, in the order of their first occurrence.
pub open spec fn first_occurrences(s: Seq<u64>) -> Seq<u64>
    decreases s.len(),
{
    if s.len() == 0 {
        Seq::empty()
    } else {
        let d = first_occurrences(s.drop_last());
        if d.contains(s.last()) {
            d
        } else {
            d.push(s.last())
        }
    }
}

/// The index in `table` of the symbols of `addr`.
fn symbols_index(table: &Vec<(u64, Vec<ResolvedSymbol>)>, addr: u64) -> (r: Option<usize>)
    ensures
        match r {
            Some(i) => i < table@.len() && symbols_of(table@, addr) == table@[i as int].1@,
            None => symbols_of(table@, addr) == Seq::<ResolvedSymbol>::empty(),
        },
{
    let mut i: usize = 0;
    assert(table@.skip(0) =~= table@);
    while i < table.len()
        invariant
            i <= table.len(),
            symbols_of(table@, addr) == symbols_of(table@.skip(i as int), addr),
        decreases table.len() - i,
    {
        assert(table@.skip(i as int).drop_first() =~= table@.skip(i + 1));
        assert(table@.skip(i as int)[0] == table@[i as int]);
        if table[i].0 == addr {
            return Some(i);
        }
        i = i + 1;
    }
    assert(table@.skip(i as int) =~= Seq::<(u64, Vec<ResolvedSymbol>)>::empty());
    None
}

/// Whether `addr` lies in a function of this crate, by its symbols.
pub fn is_internal_address(table: &Vec<(u64, Vec<ResolvedSymbol>)>, addr: u64) -> (r: bool)
    ensures
        r == internal_address(table@, addr),
{
    match symbols_index(table, addr) {
        None => false,
        Some(i) => {
            let syms = &table[i].1;
            let mut k: usize = 0;
            while k < syms.len()
                invariant
                    k <= syms.len(),
                    symbols_of(table@, addr) == syms@,
                    forall|j: int| 0 <= j < k ==> !internal_function_spec(#[trigger] syms@[j].name@),
                decreases syms.len() - k,
            {
                if is_pprof_alloc_internal_function(syms[k].name.as_str()) {
                    assert(internal_function_spec(symbols_of(table@, addr)[k as int].name@));
                    return true;
                }
                k = k + 1;
            }
            false
        },
    }
}

/// The most symbols any address of `table` resolves to.
pub open spec fn max_symbols(table: Seq<(u64, Vec<ResolvedSymbol>)>) -> nat
    decreases table.len(),
{
    if table.len() == 0 {
        0
    } else {
        let rest = max_symbols(table.drop_first());
        if table[0].1@.len() > rest {
            table[0].1@.len()
        } else {
            rest
        }
    }
}

proof fn lemma_symbols_bounded(table: Seq<(u64, Vec<ResolvedSymbol>)>, addr: u64)
    ensures
        symbols_of(table, addr).len() <= max_symbols(table),
    decreases table.len(),
{
    if table.len() > 0 {
        lemma_symbols_bounded(table.drop_first(), addr);
    }
}

/// The number of addresses over all stacks of a profile.
pub open spec fn addr_total(stacks: Seq<(WeightedStack, Option<usize>)>) -> nat
    decreases stacks.len(),
{
    if stacks.len() == 0 {
        0
    } else {
        addr_total(stacks.drop_last()) + stacks.last().0.addrs@.len()
    }
}

proof fn lemma_addr_total_prefix(stacks: Seq<(WeightedStack, Option<usize>)>, i: int)
    requires
        0 <= i < stacks.len(),
    ensures
        addr_total(stacks.take(i)) + stacks[i].0.addrs@.len() == addr_total(stacks.take(i + 1)),
        addr_total(stacks.take(i + 1)) <= addr_total(stacks),
    decreases stacks.len() - i,
{
    assert(stacks.take(i + 1).drop_last() =~= stacks.take(i));
    if i + 1 < stacks.len() {
        lemma_addr_total_prefix(stacks, i + 1);
    } else {
        assert(stacks.take(i + 1) =~= stacks);
    }
}

/// The function table being built: functions with sequential ids, and their
/// names.
pub open spec fn functions_wf(functions: Seq<Function>, names: Seq<String>, table: Seq<Seq<char>>) -> bool {
    &&& functions.len() == names.len()
    &&& forall|k: int| 0 <= k < functions.len() ==> (#[trigger] functions[k]).id == k + 1
    &&& forall|k: int|
        0 <= k < functions.len() ==> 0 <= (#[trigger] functions[k]).name < table.len()
            && table[functions[k].name as int] == names[k]@
}

/// The mapping table being built keeps the ids, spans and names it was
/// made with; only the `has_*` flags change.
pub open spec fn same_mappings(a: Seq<ProtoMapping>, b: Seq<ProtoMapping>) -> bool {
    &&& a.len() == b.len()
    &&& forall|k: int|
        0 <= k < a.len() ==> (#[trigger] a[k]).id == b[k].id && a[k].memory_start == b[k].memory_start
            && a[k].memory_limit == b[k].memory_limit && a[k].file_offset == b[k].file_offset
            && a[k].filename == b[k].filename && a[k].build_id == b[k].build_id
}

/// Whether `b` extends the string table `a` (the texts of `a` keep their
/// indices).
pub open spec fn extends(a: Seq<Seq<char>>, b: Seq<Seq<char>>) -> bool {
    a.len() <= b.len() && forall|k: int| 0 <= k < a.len() ==> #[trigger] b[k] == a[k]
}

/// Whether `lines` are the source lines of the symbols `syms`, one per
/// symbol in order: each carries its symbol's line number and the id of a
/// function of `functions` named (in `table`) as the symbol is.
pub open spec fn lines_ok(
    lines: Seq<Line>,
    syms: Seq<ResolvedSymbol>,
    functions: Seq<Function>,
    table: Seq<Seq<char>>,
) -> bool {
    &&& lines.len() == syms.len()
    &&& forall|j: int|
        0 <= j < lines.len() ==> (#[trigger] lines[j]).line == syms[j].lineno && 1
            <= lines[j].function_id <= functions.len() && 0 <= functions[lines[j].function_id
            - 1].name < table.len() && table[functions[lines[j].function_id - 1].name as int]
            == syms[j].name@
}

/// Whether `b` keeps the first `a.len()` functions of `a`.
pub open spec fn keeps_functions(a: Seq<Function>, b: Seq<Function>) -> bool {
    a.len() <= b.len() && forall|k: int| 0 <= k < a.len() ==> #[trigger] b[k] == a[k]
}

proof fn lemma_lines_ok_grows(
    lines: Seq<Line>,
    syms: Seq<ResolvedSymbol>,
    f1: Seq<Function>,
    t1: Seq<Seq<char>>,
    f2: Seq<Function>,
    t2: Seq<Seq<char>>,
)
    requires
        lines_ok(lines, syms, f1, t1),
        keeps_functions(f1, f2),
        extends(t1, t2),
    ensures
        lines_ok(lines, syms, f2, t2),
{
    assert forall|j: int| 0 <= j < lines.len() implies (#[trigger] lines[j]).line == syms[j].lineno
        && 1 <= lines[j].function_id <= f2.len() && 0 <= f2[lines[j].function_id - 1].name < t2.len()
        && t2[f2[lines[j].function_id - 1].name as int] == syms[j].name@ by {
        let f = lines[j].function_id - 1;
        assert(f2[f] == f1[f]);
        assert(t2[f1[f].name as int] == t1[f1[f].name as int]);
    }
}

/// Whether `loc` is not folded and stands for an address whose
/// file-relative form is the location's address, names the first mapping
/// that holds that address (0 for none) and holds the address's source
/// lines.
pub open spec fn location_lines_ok(
    loc: Location,
    mappings: Seq<Mapping>,
    symbols: Seq<(u64, Vec<ResolvedSymbol>)>,
    functions: Seq<Function>,
    table: Seq<Seq<char>>,
) -> bool {
    &&& !loc.is_folded
    &&& exists|a: u64|
        relative_spec(mappings, a) == loc.address && loc.mapping_id == mapping_number(mappings, a)
            && #[trigger] lines_ok(loc.line@, symbols_of(symbols, a), functions, table)
}

/// Whether each location of `locations` holds the source lines of an
/// address that it stands for.
pub open spec fn locations_lines(
    locations: Seq<Location>,
    mappings: Seq<Mapping>,
    symbols: Seq<(u64, Vec<ResolvedSymbol>)>,
    functions: Seq<Function>,
    table: Seq<Seq<char>>,
) -> bool {
    forall|k: int|
        0 <= k < locations.len() ==> location_lines_ok(
            #[trigger] locations[k],
            mappings,
            symbols,
            functions,
            table,
        )
}

proof fn lemma_location_lines_grow(
    loc: Location,
    mappings: Seq<Mapping>,
    symbols: Seq<(u64, Vec<ResolvedSymbol>)>,
    f1: Seq<Function>,
    t1: Seq<Seq<char>>,
    f2: Seq<Function>,
    t2: Seq<Seq<char>>,
)
    requires
        location_lines_ok(loc, mappings, symbols, f1, t1),
        keeps_functions(f1, f2),
        extends(t1, t2),
    ensures
        location_lines_ok(loc, mappings, symbols, f2, t2),
{
    let a = choose|a: u64|
        relative_spec(mappings, a) == loc.address && loc.mapping_id == mapping_number(mappings, a)
            && #[trigger] lines_ok(loc.line@, symbols_of(symbols, a), f1, t1);
    lemma_lines_ok_grows(loc.line@, symbols_of(symbols, a), f1, t1, f2, t2);
}

proof fn lemma_locations_lines_grow(
    locations: Seq<Location>,
    mappings: Seq<Mapping>,
    symbols: Seq<(u64, Vec<ResolvedSymbol>)>,
    f1: Seq<Function>,
    t1: Seq<Seq<char>>,
    f2: Seq<Function>,
    t2: Seq<Seq<char>>,
)
    requires
        locations_lines(locations, mappings, symbols, f1, t1),
        keeps_functions(f1, f2),
        extends(t1, t2),
    ensures
        locations_lines(locations, mappings, symbols, f2, t2),
{
    assert forall|k: int| 0 <= k < locations.len() implies location_lines_ok(
        #[trigger] locations[k],
        mappings,
        symbols,
        f2,
        t2,
    ) by {
        lemma_location_lines_grow(locations[k], mappings, symbols, f1, t1, f2, t2);
    }
}

/// Whether some location of `locs` lies in the mapping numbered `n` and
/// has inline frames (more than one line).
pub open spec fn has_inline_location(locs: Seq<Location>, n: int) -> bool {
    exists|l: int| 0 <= l < locs.len() && (#[trigger] locs[l]).mapping_id == n && locs[l].line@.len() > 1
}

/// Whether exactly the mappings holding a location with inline frames are
/// marked as having inline frames.
pub open spec fn inline_flags_ok(m: Seq<ProtoMapping>, locs: Seq<Location>) -> bool {
    forall|k: int| 0 <= k < m.len() ==> ((#[trigger] m[k]).has_inline_frames <==> has_inline_location(locs, k + 1))
}

/// Whether line `j` of `lines` is the first to name function `f` (by
/// index, so with id `f + 1`).
pub open spec fn first_in_lines(lines: Seq<Line>, f: int, j: int) -> bool {
    &&& 0 <= j < lines.len()
    &&& lines[j].function_id == f + 1
    &&& forall|j2: int| 0 <= j2 < j ==> (#[trigger] lines[j2]).function_id != f + 1
}

/// Whether some line of `lines` is the first to name function `f`.
pub open spec fn names_first(lines: Seq<Line>, f: int) -> bool {
    exists|j: int| #[trigger] first_in_lines(lines, f, j)
}

/// Whether some line of `lines` names function `f`.
pub open spec fn uses_function(lines: Seq<Line>, f: int) -> bool {
    exists|j: int| 0 <= j < lines.len() && (#[trigger] lines[j]).function_id == f + 1
}

/// Whether line `j` of location `l` is the first line of `locs` (locations
/// in order, lines in order) to name function `f`.
pub open spec fn first_use(locs: Seq<Location>, f: int, l: int, j: int) -> bool {
    &&& 0 <= l < locs.len()
    &&& first_in_lines(locs[l].line@, f, j)
    &&& forall|l2: int| 0 <= l2 < l ==> !uses_function((#[trigger] locs[l2]).line@, f)
}

/// Whether function `f` is first named in a location of the mapping
/// numbered `n`.
pub open spec fn first_used_in(locs: Seq<Location>, f: int, n: int) -> bool {
    exists|l: int, j: int| #[trigger] first_use(locs, f, l, j) && locs[l].mapping_id == n
}

/// Whether function `f` is first named, in a location of the mapping
/// numbered `n`, by a line with a positive line number.
pub open spec fn first_used_with_line_in(locs: Seq<Location>, f: int, n: int) -> bool {
    exists|l: int, j: int|
        #[trigger] first_use(locs, f, l, j) && locs[l].mapping_id == n && locs[l].line@[j].line > 0
}

/// The flags of the mappings that follow the functions: a mapping has
/// functions when a function is first named in one of its locations, file
/// names when such a function has a file name (string index 0 is the empty
/// text), and line numbers when such a first naming carries a positive line
/// number.
pub open spec fn function_flags_ok(m: Seq<ProtoMapping>, locs: Seq<Location>, functions: Seq<Function>) -> bool {
    forall|k: int|
        0 <= k < m.len() ==> {
            &&& (#[trigger] m[k]).has_functions <==> exists|f: int|
                0 <= f < functions.len() && #[trigger] first_used_in(locs, f, k + 1)
            &&& m[k].has_filenames <==> exists|f: int|
                0 <= f < functions.len() && #[trigger] first_used_in(locs, f, k + 1)
                    && functions[f].filename != 0
            &&& m[k].has_line_numbers <==> exists|f: int|
                0 <= f < functions.len() && #[trigger] first_used_with_line_in(locs, f, k + 1)
        }
}

/// How the function flags of a mapping change when a location is added:
/// unchanged unless the location lies in it (`here`), else also set for the
/// functions that the location's `lines` name first (those from index `f0`
/// on).
pub open spec fn new_flags(
    before: ProtoMapping,
    after: ProtoMapping,
    here: bool,
    lines: Seq<Line>,
    f0: int,
    functions: Seq<Function>,
) -> bool {
    &&& after.has_functions == (before.has_functions || (here && functions.len() > f0))
    &&& after.has_filenames == (before.has_filenames || (here && exists|f: int|
        f0 <= f < functions.len() && (#[trigger] functions[f]).filename != 0))
    &&& after.has_line_numbers == (before.has_line_numbers || (here && exists|f: int, j: int|
        f0 <= f < functions.len() && #[trigger] first_in_lines(lines, f, j) && lines[j].line > 0))
}

/// Whether the function flags of `m1` are those of `m0`, each mapping
/// also flagged, when a function was added for a location in it (`idx`),
/// as that function's file name (`named_file`) and first line show.
pub open spec fn flags_after_line(
    m0: Seq<ProtoMapping>,
    m1: Seq<ProtoMapping>,
    idx: Option<usize>,
    added: bool,
    named_file: bool,
    numbered: bool,
) -> bool {
    forall|q: int|
        0 <= q < m0.len() ==> {
            let here = added && (idx matches Some(i) && i == q);
            &&& (#[trigger] m1[q]).has_functions == (m0[q].has_functions || here)
            &&& m1[q].has_filenames == (m0[q].has_filenames || (here && named_file))
            &&& m1[q].has_line_numbers == (m0[q].has_line_numbers || (here && numbered))
        }
}

/// Whether function `f` carries the system name and file name (texts of
/// `table`) of `sym`, and start line 0.
pub open spec fn function_from(functions: Seq<Function>, f: int, table: Seq<Seq<char>>, sym: ResolvedSymbol) -> bool {
    &&& 0 <= functions[f].system_name < table.len()
    &&& table[functions[f].system_name as int] == sym.system_name@
    &&& 0 <= functions[f].filename < table.len()
    &&& table[functions[f].filename as int] == sym.filename@
    &&& functions[f].start_line == 0
}

/// Whether function `f` is first named in `lines` by a line whose symbol
/// (of `syms`) it was made from.
pub open spec fn sourced_in_lines(
    lines: Seq<Line>,
    syms: Seq<ResolvedSymbol>,
    functions: Seq<Function>,
    table: Seq<Seq<char>>,
    f: int,
) -> bool {
    exists|j: int| #[trigger] first_in_lines(lines, f, j) && function_from(functions, f, table, syms[j])
}

/// Whether function `f` was made from the symbol of the line that first
/// names it, for an address that the line's location stands for.
pub open spec fn function_sourced(
    locs: Seq<Location>,
    mappings: Seq<Mapping>,
    symbols: Seq<(u64, Vec<ResolvedSymbol>)>,
    functions: Seq<Function>,
    table: Seq<Seq<char>>,
    f: int,
) -> bool {
    exists|l: int, j: int, a: u64|
        #![trigger first_use(locs, f, l, j), symbols_of(symbols, a)]
        first_use(locs, f, l, j) && relative_spec(mappings, a) == locs[l].address && lines_ok(
            locs[l].line@,
            symbols_of(symbols, a),
            functions,
            table,
        ) && function_from(functions, f, table, symbols_of(symbols, a)[j])
}

/// Whether every function was made from the symbol that first names it.
pub open spec fn functions_sourced(
    locs: Seq<Location>,
    mappings: Seq<Mapping>,
    symbols: Seq<(u64, Vec<ResolvedSymbol>)>,
    functions: Seq<Function>,
    table: Seq<Seq<char>>,
) -> bool {
    forall|f: int|
        0 <= f < functions.len() ==> #[trigger] function_sourced(locs, mappings, symbols, functions, table, f)
}

proof fn lemma_function_from_grows(
    f1: Seq<Function>,
    f2: Seq<Function>,
    f: int,
    t1: Seq<Seq<char>>,
    t2: Seq<Seq<char>>,
    sym: ResolvedSymbol,
)
    requires
        0 <= f < f1.len(),
        function_from(f1, f, t1, sym),
        keeps_functions(f1, f2),
        extends(t1, t2),
    ensures
        function_from(f2, f, t2, sym),
{
    assert(f2[f] == f1[f]);
    assert(t2[f1[f].system_name as int] == t1[f1[f].system_name as int]);
    assert(t2[f1[f].filename as int] == t1[f1[f].filename as int]);
}

proof fn lemma_sourced_step(
    line0: Seq<Line>,
    line1: Seq<Line>,
    syms: Seq<ResolvedSymbol>,
    fs0: Seq<Function>,
    fs1: Seq<Function>,
    t0: Seq<Seq<char>>,
    t1: Seq<Seq<char>>,
    f0: int,
)
    requires
        line1.len() == line0.len() + 1,
        line0.len() < syms.len(),
        forall|j: int| 0 <= j < line0.len() ==> #[trigger] line1[j] == line0[j],
        0 <= f0 <= fs0.len(),
        keeps_functions(fs0, fs1),
        extends(t0, t1),
        forall|j: int| 0 <= j < line0.len() ==> 1 <= (#[trigger] line0[j]).function_id <= fs0.len(),
        forall|f: int| f0 <= f < fs0.len() ==> #[trigger] sourced_in_lines(line0, syms, fs0, t0, f),
        fs1.len() == fs0.len() ==> 1 <= line1.last().function_id <= fs0.len(),
        fs1.len() != fs0.len() ==> fs1.len() == fs0.len() + 1 && line1.last().function_id == fs0.len() + 1
            && function_from(fs1, fs0.len() as int, t1, syms[line0.len() as int]),
    ensures
        forall|f: int| f0 <= f < fs1.len() ==> #[trigger] sourced_in_lines(line1, syms, fs1, t1, f),
{
    let n = line0.len() as int;
    assert forall|f: int| f0 <= f < fs1.len() implies #[trigger] sourced_in_lines(line1, syms, fs1, t1, f) by {
        if f < fs0.len() {
            assert(sourced_in_lines(line0, syms, fs0, t0, f));
            let j = choose|j: int| #[trigger] first_in_lines(line0, f, j) && function_from(fs0, f, t0, syms[j]);
            assert forall|j2: int| 0 <= j2 < j implies (#[trigger] line1[j2]).function_id != f + 1 by {
                assert(line1[j2] == line0[j2]);
            }
            assert(line1[j] == line0[j]);
            assert(first_in_lines(line1, f, j));
            lemma_function_from_grows(fs0, fs1, f, t0, t1, syms[j]);
        } else {
            assert forall|j2: int| 0 <= j2 < n implies (#[trigger] line1[j2]).function_id != f + 1 by {
                assert(line1[j2] == line0[j2]);
            }
            assert(line1[n] == line1.last());
            assert(first_in_lines(line1, f, n));
        }
    }
}

proof fn lemma_functions_sourced_grow(
    locs: Seq<Location>,
    mappings: Seq<Mapping>,
    symbols: Seq<(u64, Vec<ResolvedSymbol>)>,
    functions: Seq<Function>,
    t1: Seq<Seq<char>>,
    t2: Seq<Seq<char>>,
)
    requires
        functions_sourced(locs, mappings, symbols, functions, t1),
        extends(t1, t2),
    ensures
        functions_sourced(locs, mappings, symbols, functions, t2),
{
    assert forall|f: int| 0 <= f < functions.len() implies #[trigger] function_sourced(
        locs,
        mappings,
        symbols,
        functions,
        t2,
        f,
    ) by {
        assert(function_sourced(locs, mappings, symbols, functions, t1, f));
        let (l, j, a) = choose|l: int, j: int, a: u64|
            #![trigger first_use(locs, f, l, j), symbols_of(symbols, a)]
            first_use(locs, f, l, j) && relative_spec(mappings, a) == locs[l].address && lines_ok(
                locs[l].line@,
                symbols_of(symbols, a),
                functions,
                t1,
            ) && function_from(functions, f, t1, symbols_of(symbols, a)[j]);
        lemma_lines_ok_grows(locs[l].line@, symbols_of(symbols, a), functions, t1, functions, t2);
        lemma_function_from_grows(functions, functions, f, t1, t2, symbols_of(symbols, a)[j]);
    }
}

proof fn lemma_functions_sourced_push(
    locs: Seq<Location>,
    loc: Location,
    mappings: Seq<Mapping>,
    symbols: Seq<(u64, Vec<ResolvedSymbol>)>,
    addr: u64,
    fs0: Seq<Function>,
    fs1: Seq<Function>,
    t0: Seq<Seq<char>>,
    t1: Seq<Seq<char>>,
)
    requires
        functions_sourced(locs, mappings, symbols, fs0, t0),
        fids_within(locs, fs0.len() as int),
        forall|f: int| 0 <= f < fs0.len() ==> #[trigger] function_used(locs, f),
        keeps_functions(fs0, fs1),
        extends(t0, t1),
        relative_spec(mappings, addr) == loc.address,
        lines_ok(loc.line@, symbols_of(symbols, addr), fs1, t1),
        forall|f: int|
            fs0.len() <= f < fs1.len() ==> #[trigger] sourced_in_lines(
                loc.line@,
                symbols_of(symbols, addr),
                fs1,
                t1,
                f,
            ),
    ensures
        functions_sourced(locs.push(loc), mappings, symbols, fs1, t1),
{
    let new = locs.push(loc);
    let len = locs.len() as int;
    assert forall|f: int| 0 <= f < fs1.len() implies #[trigger] function_sourced(
        new,
        mappings,
        symbols,
        fs1,
        t1,
        f,
    ) by {
        if f < fs0.len() {
            assert(function_used(locs, f));
            assert(function_sourced(locs, mappings, symbols, fs0, t0, f));
            let (l, j, a) = choose|l: int, j: int, a: u64|
                #![trigger first_use(locs, f, l, j), symbols_of(symbols, a)]
                first_use(locs, f, l, j) && relative_spec(mappings, a) == locs[l].address && lines_ok(
                    locs[l].line@,
                    symbols_of(symbols, a),
                    fs0,
                    t0,
                ) && function_from(fs0, f, t0, symbols_of(symbols, a)[j]);
            lemma_first_use_push_old(locs, loc, f, l, j);
            assert(new[l] == locs[l]);
            lemma_lines_ok_grows(locs[l].line@, symbols_of(symbols, a), fs0, t0, fs1, t1);
            lemma_function_from_grows(fs0, fs1, f, t0, t1, symbols_of(symbols, a)[j]);
            assert(first_use(new, f, l, j));
        } else {
            assert(sourced_in_lines(loc.line@, symbols_of(symbols, addr), fs1, t1, f));
            let j = choose|j: int|
                #[trigger] first_in_lines(loc.line@, f, j) && function_from(fs1, f, t1, symbols_of(symbols, addr)[j]);
            lemma_first_use_push_new(locs, loc, fs0.len() as int, f, len, j);
            assert(new[len] == loc);
            assert(first_use(new, f, len, j));
        }
    }
}

proof fn lemma_flags_step(
    om: Seq<ProtoMapping>,
    m0: Seq<ProtoMapping>,
    m1: Seq<ProtoMapping>,
    idx: Option<usize>,
    line0: Seq<Line>,
    line1: Seq<Line>,
    fs0: Seq<Function>,
    fs1: Seq<Function>,
    f0: int,
    named_file: bool,
)
    requires
        line1.len() == line0.len() + 1,
        forall|j: int| 0 <= j < line0.len() ==> #[trigger] line1[j] == line0[j],
        0 <= f0 <= fs0.len(),
        keeps_functions(fs0, fs1),
        forall|j: int| 0 <= j < line0.len() ==> 1 <= (#[trigger] line0[j]).function_id <= fs0.len(),
        forall|f: int| f0 <= f < fs0.len() ==> #[trigger] names_first(line0, f),
        om.len() == m0.len(),
        m1.len() == m0.len(),
        forall|q: int|
            0 <= q < om.len() ==> new_flags(
                om[q],
                #[trigger] m0[q],
                idx matches Some(i) && i == q,
                line0,
                f0,
                fs0,
            ),
        fs1.len() == fs0.len() ==> 1 <= line1.last().function_id <= fs0.len(),
        fs1.len() == fs0.len() ==> flags_after_line(m0, m1, idx, false, false, false),
        fs1.len() != fs0.len() ==> fs1.len() == fs0.len() + 1 && line1.last().function_id == fs0.len() + 1
            && (fs1[fs0.len() as int].filename != 0) == named_file && flags_after_line(
            m0,
            m1,
            idx,
            true,
            named_file,
            line1.last().line > 0,
        ),
    ensures
        forall|f: int| f0 <= f < fs1.len() ==> #[trigger] names_first(line1, f),
        forall|q: int|
            0 <= q < om.len() ==> new_flags(
                om[q],
                #[trigger] m1[q],
                idx matches Some(i) && i == q,
                line1,
                f0,
                fs1,
            ),
{
    let n = line0.len() as int;
    assert forall|f: int, j: int| 0 <= j < n && first_in_lines(line0, f, j) implies #[trigger] first_in_lines(
        line1,
        f,
        j,
    ) by {
        assert forall|j2: int| 0 <= j2 < j implies (#[trigger] line1[j2]).function_id != f + 1 by {
            assert(line1[j2] == line0[j2]);
        }
    }
    assert forall|f: int, j: int| #[trigger] first_in_lines(line1, f, j) && j < n implies first_in_lines(
        line0,
        f,
        j,
    ) by {
        assert forall|j2: int| 0 <= j2 < j implies (#[trigger] line0[j2]).function_id != f + 1 by {
            assert(line1[j2] == line0[j2]);
        }
        assert(line1[j] == line0[j]);
    }
    if fs1.len() == fs0.len() {
        assert forall|f: int, j: int| f0 <= f < fs1.len() && #[trigger] first_in_lines(line1, f, j) implies j < n by {
            if j == n {
                assert(names_first(line0, f));
                let j0 = choose|j0: int| #[trigger] first_in_lines(line0, f, j0);
                assert(line1[j0] == line0[j0]);
            }
        }
    } else {
        let nf = fs0.len() as int;
        assert forall|j2: int| 0 <= j2 < n implies (#[trigger] line1[j2]).function_id != nf + 1 by {
            assert(line1[j2] == line0[j2]);
        }
        assert(first_in_lines(line1, nf, n));
    }
    assert forall|f: int| f0 <= f < fs1.len() implies #[trigger] names_first(line1, f) by {
        if f < fs0.len() {
            assert(names_first(line0, f));
            let j0 = choose|j0: int| #[trigger] first_in_lines(line0, f, j0);
            assert(first_in_lines(line1, f, j0));
        } else {
            assert(first_in_lines(line1, f, n));
        }
    }
    assert forall|q: int| 0 <= q < om.len() implies new_flags(
        om[q],
        #[trigger] m1[q],
        idx matches Some(i) && i == q,
        line1,
        f0,
        fs1,
    ) by {
        assert(new_flags(om[q], m0[q], idx matches Some(i) && i == q, line0, f0, fs0));
        assert(forall|f: int| 0 <= f < fs0.len() ==> #[trigger] fs1[f] == fs0[f]);
        if exists|f: int, j: int| f0 <= f < fs1.len() && #[trigger] first_in_lines(line1, f, j) && line1[j].line > 0 {
            let (f, j) = choose|f: int, j: int|
                f0 <= f < fs1.len() && #[trigger] first_in_lines(line1, f, j) && line1[j].line > 0;
            if j < n {
                assert(first_in_lines(line0, f, j));
                assert(line0[j].line > 0);
            }
        }
        if exists|f: int, j: int| f0 <= f < fs0.len() && #[trigger] first_in_lines(line0, f, j) && line0[j].line > 0 {
            let (f, j) = choose|f: int, j: int|
                f0 <= f < fs0.len() && #[trigger] first_in_lines(line0, f, j) && line0[j].line > 0;
            assert(first_in_lines(line1, f, j));
            assert(line1[j] == line0[j]);
        }
        if exists|f: int| f0 <= f < fs1.len() && (#[trigger] fs1[f]).filename != 0 {
            let f = choose|f: int| f0 <= f < fs1.len() && (#[trigger] fs1[f]).filename != 0;
            if f < fs0.len() {
                assert(fs0[f] == fs1[f]);
            }
        }
        if exists|f: int| f0 <= f < fs0.len() && (#[trigger] fs0[f]).filename != 0 {
            let f = choose|f: int| f0 <= f < fs0.len() && (#[trigger] fs0[f]).filename != 0;
            assert(fs0[f] == fs1[f]);
        }
        if fs1.len() != fs0.len() {
            let nf = fs0.len() as int;
            assert(first_in_lines(line1, nf, n));
            assert(line1[n] == line1.last());
        } else {
            assert(line1[n] == line1.last());
        }
    }
}

/// Whether some location of `locs` names function `f`.
pub open spec fn function_used(locs: Seq<Location>, f: int) -> bool {
    exists|l: int| 0 <= l < locs.len() && #[trigger] uses_function(locs[l].line@, f)
}

/// Whether every line of `locs` names one of the first `n` functions.
pub open spec fn fids_within(locs: Seq<Location>, n: int) -> bool {
    forall|l: int, j: int|
        0 <= l < locs.len() && 0 <= j < locs[l].line@.len() ==> 1 <= (#[trigger] locs[l].line@[j]).function_id
            <= n
}

/// The function table of `locs` and `functions`: every line names one of
/// the functions, every function is named somewhere, and the mappings'
/// function flags follow the functions' first namings.
pub open spec fn function_table_ok(m: Seq<ProtoMapping>, locs: Seq<Location>, functions: Seq<Function>) -> bool {
    &&& fids_within(locs, functions.len() as int)
    &&& forall|f: int| 0 <= f < functions.len() ==> #[trigger] function_used(locs, f)
    &&& function_flags_ok(m, locs, functions)
}

proof fn lemma_first_use_push_old(locs: Seq<Location>, loc: Location, f: int, l: int, j: int)
    requires
        function_used(locs, f),
    ensures
        first_use(locs.push(loc), f, l, j) <==> first_use(locs, f, l, j),
{
    let new = locs.push(loc);
    let n = locs.len() as int;
    if first_use(new, f, l, j) {
        if l == n {
            let l2 = choose|l2: int| 0 <= l2 < locs.len() && #[trigger] uses_function(locs[l2].line@, f);
            assert(new[l2] == locs[l2]);
            assert(!uses_function(new[l2].line@, f));
        }
        assert(new[l] == locs[l]);
        assert forall|l2: int| 0 <= l2 < l implies !uses_function((#[trigger] locs[l2]).line@, f) by {
            assert(new[l2] == locs[l2]);
        }
    }
    if first_use(locs, f, l, j) {
        assert(new[l] == locs[l]);
        assert forall|l2: int| 0 <= l2 < l implies !uses_function((#[trigger] new[l2]).line@, f) by {
            assert(new[l2] == locs[l2]);
        }
    }
}

proof fn lemma_first_use_push_new(locs: Seq<Location>, loc: Location, n: int, f: int, l: int, j: int)
    requires
        fids_within(locs, n),
        f >= n,
    ensures
        first_use(locs.push(loc), f, l, j) <==> (l == locs.len() && first_in_lines(loc.line@, f, j)),
{
    let new = locs.push(loc);
    let len = locs.len() as int;
    assert forall|l2: int| 0 <= l2 < len implies !uses_function((#[trigger] new[l2]).line@, f) by {
        assert(new[l2] == locs[l2]);
        if uses_function(new[l2].line@, f) {
            let j2 = choose|j2: int| 0 <= j2 < new[l2].line@.len() && (#[trigger] new[l2].line@[j2]).function_id == f + 1;
            assert(locs[l2].line@[j2].function_id <= n);
        }
    }
    if first_use(new, f, l, j) && l < len {
        assert(uses_function(new[l].line@, f));
    }
}

proof fn lemma_function_table_push(
    m0: Seq<ProtoMapping>,
    m1: Seq<ProtoMapping>,
    locs: Seq<Location>,
    loc: Location,
    idx: Option<usize>,
    fs0: Seq<Function>,
    fs1: Seq<Function>,
)
    requires
        function_table_ok(m0, locs, fs0),
        keeps_functions(fs0, fs1),
        m1.len() == m0.len(),
        forall|j: int| 0 <= j < loc.line@.len() ==> 1 <= (#[trigger] loc.line@[j]).function_id <= fs1.len(),
        forall|f: int| fs0.len() <= f < fs1.len() ==> #[trigger] names_first(loc.line@, f),
        forall|q: int|
            0 <= q < m0.len() ==> new_flags(
                m0[q],
                #[trigger] m1[q],
                idx matches Some(i) && i == q,
                loc.line@,
                fs0.len() as int,
                fs1,
            ),
        loc.mapping_id == match idx {
            Some(i) => i + 1,
            None => 0,
        },
    ensures
        function_table_ok(m1, locs.push(loc), fs1),
{
    let new = locs.push(loc);
    let len = locs.len() as int;
    let f0 = fs0.len() as int;
    assert forall|l: int, j: int| 0 <= l < new.len() && 0 <= j < new[l].line@.len() implies 1 <= (
    #[trigger] new[l].line@[j]).function_id <= fs1.len() by {
        if l < len {
            assert(new[l] == locs[l]);
            assert(1 <= locs[l].line@[j].function_id <= fs0.len());
        }
    }
    assert forall|f: int| 0 <= f < fs1.len() implies #[trigger] function_used(new, f) by {
        if f < f0 {
            assert(function_used(locs, f));
            let l = choose|l: int| 0 <= l < locs.len() && #[trigger] uses_function(locs[l].line@, f);
            assert(new[l] == locs[l]);
            assert(uses_function(new[l].line@, f));
        } else {
            assert(names_first(loc.line@, f));
            let j = choose|j: int| #[trigger] first_in_lines(loc.line@, f, j);
            assert(new[len] == loc);
            assert(uses_function(new[len].line@, f));
        }
    }
    assert forall|f: int, k: int|
        #![trigger first_used_in(new, f, k)]
        #![trigger first_used_with_line_in(new, f, k)]
        0 <= f < f0 implies (first_used_in(new, f, k) <==> first_used_in(locs, f, k)) && (
        first_used_with_line_in(new, f, k) <==> first_used_with_line_in(locs, f, k)) by {
        assert(function_used(locs, f));
        if first_used_in(new, f, k) {
            let (l, j) = choose|l: int, j: int| #[trigger] first_use(new, f, l, j) && new[l].mapping_id == k;
            lemma_first_use_push_old(locs, loc, f, l, j);
            assert(new[l] == locs[l]);
        }
        if first_used_in(locs, f, k) {
            let (l, j) = choose|l: int, j: int| #[trigger] first_use(locs, f, l, j) && locs[l].mapping_id == k;
            lemma_first_use_push_old(locs, loc, f, l, j);
            assert(new[l] == locs[l]);
        }
        if first_used_with_line_in(new, f, k) {
            let (l, j) = choose|l: int, j: int|
                #[trigger] first_use(new, f, l, j) && new[l].mapping_id == k && new[l].line@[j].line > 0;
            lemma_first_use_push_old(locs, loc, f, l, j);
            assert(new[l] == locs[l]);
        }
        if first_used_with_line_in(locs, f, k) {
            let (l, j) = choose|l: int, j: int|
                #[trigger] first_use(locs, f, l, j) && locs[l].mapping_id == k && locs[l].line@[j].line > 0;
            lemma_first_use_push_old(locs, loc, f, l, j);
            assert(new[l] == locs[l]);
        }
    }
    assert forall|f: int, k: int|
        #![trigger first_used_in(new, f, k)]
        #![trigger first_used_with_line_in(new, f, k)]
        f0 <= f < fs1.len() implies (first_used_in(new, f, k) <==> loc.mapping_id == k) && (
        first_used_with_line_in(new, f, k) <==> (loc.mapping_id == k && exists|j: int|
            #[trigger] first_in_lines(loc.line@, f, j) && loc.line@[j].line > 0)) by {
        assert(new[len] == loc);
        if first_used_in(new, f, k) {
            let (l, j) = choose|l: int, j: int| #[trigger] first_use(new, f, l, j) && new[l].mapping_id == k;
            lemma_first_use_push_new(locs, loc, f0, f, l, j);
        }
        if loc.mapping_id == k {
            assert(names_first(loc.line@, f));
            let j = choose|j: int| #[trigger] first_in_lines(loc.line@, f, j);
            lemma_first_use_push_new(locs, loc, f0, f, len, j);
            assert(first_use(new, f, len, j));
        }
        if first_used_with_line_in(new, f, k) {
            let (l, j) = choose|l: int, j: int|
                #[trigger] first_use(new, f, l, j) && new[l].mapping_id == k && new[l].line@[j].line > 0;
            lemma_first_use_push_new(locs, loc, f0, f, l, j);
            assert(first_in_lines(loc.line@, f, j));
        }
        if loc.mapping_id == k && exists|j: int| #[trigger] first_in_lines(loc.line@, f, j) && loc.line@[j].line > 0 {
            let j = choose|j: int| #[trigger] first_in_lines(loc.line@, f, j) && loc.line@[j].line > 0;
            lemma_first_use_push_new(locs, loc, f0, f, len, j);
            assert(first_use(new, f, len, j));
        }
    }
    assert forall|q: int| 0 <= q < m1.len() implies {
        &&& (#[trigger] m1[q]).has_functions <==> exists|f: int|
            0 <= f < fs1.len() && #[trigger] first_used_in(new, f, q + 1)
        &&& m1[q].has_filenames <==> exists|f: int|
            0 <= f < fs1.len() && #[trigger] first_used_in(new, f, q + 1) && fs1[f].filename != 0
        &&& m1[q].has_line_numbers <==> exists|f: int|
            0 <= f < fs1.len() && #[trigger] first_used_with_line_in(new, f, q + 1)
    } by {
        let here = idx matches Some(i) && i == q;
        assert(new_flags(m0[q], m1[q], here, loc.line@, f0, fs1));
        assert(here <==> loc.mapping_id == q + 1);
        assert(forall|f: int| 0 <= f < f0 ==> #[trigger] fs1[f] == fs0[f]);
        if m1[q].has_functions {
            if m0[q].has_functions {
                let f = choose|f: int| 0 <= f < fs0.len() && #[trigger] first_used_in(locs, f, q + 1);
                assert(first_used_in(new, f, q + 1));
            } else {
                assert(first_used_in(new, f0, q + 1));
            }
        }
        if exists|f: int| 0 <= f < fs1.len() && #[trigger] first_used_in(new, f, q + 1) {
            let f = choose|f: int| 0 <= f < fs1.len() && #[trigger] first_used_in(new, f, q + 1);
            if f < f0 {
                assert(first_used_in(locs, f, q + 1));
            }
        }
        if m1[q].has_filenames {
            if m0[q].has_filenames {
                let f = choose|f: int|
                    0 <= f < fs0.len() && #[trigger] first_used_in(locs, f, q + 1) && fs0[f].filename != 0;
                assert(first_used_in(new, f, q + 1));
            } else {
                let f = choose|f: int| f0 <= f < fs1.len() && (#[trigger] fs1[f]).filename != 0;
                assert(first_used_in(new, f, q + 1));
            }
        }
        if exists|f: int| 0 <= f < fs1.len() && #[trigger] first_used_in(new, f, q + 1) && fs1[f].filename != 0 {
            let f = choose|f: int|
                0 <= f < fs1.len() && #[trigger] first_used_in(new, f, q + 1) && fs1[f].filename != 0;
            if f < f0 {
                assert(first_used_in(locs, f, q + 1));
            } else {
                assert(f0 <= f < fs1.len() && fs1[f].filename != 0);
            }
        }
        if m1[q].has_line_numbers {
            if m0[q].has_line_numbers {
                let f = choose|f: int| 0 <= f < fs0.len() && #[trigger] first_used_with_line_in(locs, f, q + 1);
                assert(first_used_with_line_in(new, f, q + 1));
            } else {
                let (f, j) = choose|f: int, j: int|
                    f0 <= f < fs1.len() && #[trigger] first_in_lines(loc.line@, f, j) && loc.line@[j].line > 0;
                assert(first_used_with_line_in(new, f, q + 1));
            }
        }
        if exists|f: int| 0 <= f < fs1.len() && #[trigger] first_used_with_line_in(new, f, q + 1) {
            let f = choose|f: int| 0 <= f < fs1.len() && #[trigger] first_used_with_line_in(new, f, q + 1);
            if f < f0 {
                assert(first_used_with_line_in(locs, f, q + 1));
            } else {
                let j = choose|j: int| #[trigger] first_in_lines(loc.line@, f, j) && loc.line@[j].line > 0;
                assert(f0 <= f < fs1.len() && first_in_lines(loc.line@, f, j) && loc.line@[j].line > 0);
            }
        }
    }
}

fn position_of_name(v: &Vec<String>, a: &str) -> (r: Option<usize>)
    ensures
        match r {
            Some(k) => k < v@.len() && v@[k as int]@ == a@,
            None => forall|j: int| 0 <= j < v@.len() ==> v@[j]@ != a@,
        },
{
    position_of(v, a)
}

/// The location of an address seen for the first time: its source lines,
/// one per symbol the address resolves to, with each symbol's function
/// added to the function table the first time its name is seen (which also
/// marks the address's mapping as having functions, file names and line
/// numbers as the symbol shows); a mapping gets inline frames once a
/// location in it has more than one line.
fn new_location(
    strings: &mut StringTable,
    mappings: &mut Vec<ProtoMapping>,
    functions: &mut Vec<Function>,
    names: &mut Vec<String>,
    syms: &Vec<ResolvedSymbol>,
    mapping_idx: Option<usize>,
    id: u64,
    address: u64,
) -> (loc: Location)
    requires
        old(strings).wf(),
        old(strings)@.len() + 3 * syms@.len() < i64::MAX,
        old(functions)@.len() + syms@.len() < u64::MAX,
        functions_wf(old(functions)@, old(names)@, old(strings)@),
        mapping_idx matches Some(i) ==> i < old(mappings)@.len(),
    ensures
        final(strings).wf(),
        extends(old(strings)@, final(strings)@),
        final(strings)@.len() <= old(strings)@.len() + 3 * syms@.len(),
        functions_wf(final(functions)@, final(names)@, final(strings)@),
        keeps_functions(old(functions)@, final(functions)@),
        final(functions)@.len() <= old(functions)@.len() + syms@.len(),
        same_mappings(final(mappings)@, old(mappings)@),
        lines_ok(loc.line@, syms@, final(functions)@, final(strings)@),
        forall|q: int|
            0 <= q < old(mappings)@.len() ==> (#[trigger] final(mappings)@[q]).has_inline_frames == (old(
                mappings,
            )@[q].has_inline_frames || (mapping_idx matches Some(i) && i == q && loc.line@.len() > 1)),
        forall|f: int|
            old(functions)@.len() <= f < final(functions)@.len() ==> #[trigger] names_first(loc.line@, f),
        forall|f: int|
            old(functions)@.len() <= f < final(functions)@.len() ==> #[trigger] sourced_in_lines(
                loc.line@,
                syms@,
                final(functions)@,
                final(strings)@,
                f,
            ),
        forall|q: int|
            0 <= q < old(mappings)@.len() ==> new_flags(
                old(mappings)@[q],
                #[trigger] final(mappings)@[q],
                mapping_idx matches Some(i) && i == q,
                loc.line@,
                old(functions)@.len() as int,
                final(functions)@,
            ),
        loc.id == id,
        loc.address == address,
        !loc.is_folded,
        loc.mapping_id == (match mapping_idx {
            Some(i) => old(mappings)@[i as int].id,
            None => 0,
        }),
{
    let mut line: Vec<Line> = Vec::new();
    let mut k: usize = 0;
    while k < syms.len()
        invariant
            k <= syms.len(),
            strings.wf(),
            extends(old(strings)@, strings@),
            strings@.len() <= old(strings)@.len() + 3 * k,
            old(strings)@.len() + 3 * syms@.len() < i64::MAX,
            old(functions)@.len() + syms@.len() < u64::MAX,
            functions_wf(functions@, names@, strings@),
            keeps_functions(old(functions)@, functions@),
            functions@.len() <= old(functions)@.len() + k,
            same_mappings(mappings@, old(mappings)@),
            mapping_idx matches Some(i) ==> i < old(mappings)@.len(),
            lines_ok(line@, syms@.take(k as int), functions@, strings@),
            forall|q: int|
                0 <= q < old(mappings)@.len() ==> (#[trigger] mappings@[q]).has_inline_frames == (old(
                    mappings,
                )@[q].has_inline_frames || (mapping_idx matches Some(i) && i == q && line@.len() > 1)),
            forall|f: int|
                old(functions)@.len() <= f < functions@.len() ==> #[trigger] names_first(line@, f),
            forall|f: int|
                old(functions)@.len() <= f < functions@.len() ==> #[trigger] sourced_in_lines(
                    line@,
                    syms@,
                    functions@,
                    strings@,
                    f,
                ),
            forall|q: int|
                0 <= q < old(mappings)@.len() ==> new_flags(
                    old(mappings)@[q],
                    #[trigger] mappings@[q],
                    mapping_idx matches Some(i) && i == q,
                    line@,
                    old(functions)@.len() as int,
                    functions@,
                ),
        decreases syms.len() - k,
    {
        let sym = &syms[k];
        let ghost line0 = line@;
        let ghost fs0 = functions@;
        let ghost ss0 = strings@;
        let ghost ms0 = mappings@;
        let function_id = match position_of_name(names, sym.name.as_str()) {
            Some(f) => {
                assert(functions@[f as int].id == f + 1);
                functions[f].id
            },
            None => {
                let function_id = functions.len() as u64 + 1;
                match mapping_idx {
                    Some(i) => {
                        let mut m = mappings[i];
                        m.has_functions = true;
                        m.has_filenames = m.has_filenames || str_chars(sym.filename.as_str()).len() > 0;
                        m.has_line_numbers = m.has_line_numbers || sym.lineno > 0;
                        let ghost before = mappings@;
                        mappings.set(i, m);
                        assert(same_mappings(mappings@, before));
                        assert(forall|q: int|
                            0 <= q < mappings@.len() ==> (#[trigger] mappings@[q]).has_inline_frames
                                == before[q].has_inline_frames);
                    },
                    None => {},
                }
                let ghost s0 = strings@;
                let name = strings.insert(sym.name.as_str());
                let system_name = strings.insert(sym.system_name.as_str());
                let ghost s2 = strings@;
                let filename = strings.insert(sym.filename.as_str());
                assert(strings@[name as int] == sym.name@);
                assert((filename != 0) == (sym.filename@.len() > 0)) by {
                    assert(strings@[0] == s2[0]);
                    if filename == 0 {
                        assert(sym.filename@ =~= Seq::<char>::empty());
                    }
                    if sym.filename@.len() == 0 {
                        assert(sym.filename@ =~= strings@[0]);
                    }
                }
                let ghost f0 = functions@;
                let ghost n0 = names@;
                functions.push(
                    Function { id: function_id, name, system_name, filename, start_line: 0 },
                );
                names.push(sym.name.clone());
                assert(names@.last()@ == sym.name@);
                assert forall|j: int| 0 <= j < functions@.len() implies 0 <= (
                #[trigger] functions@[j]).name < strings@.len() && strings@[functions@[j].name as int]
                    == names@[j]@ by {
                    if j < f0.len() {
                        assert(functions@[j] == f0[j]);
                        assert(names@[j] == n0[j]);
                        assert(strings@[f0[j].name as int] == s0[f0[j].name as int]);
                    }
                }
                function_id
            },
        };
        proof {
            assert(keeps_functions(fs0, functions@));
            lemma_lines_ok_grows(line0, syms@.take(k as int), fs0, ss0, functions@, strings@);
            let f = function_id - 1;
            assert(0 <= functions@[f as int].name < strings@.len() && strings@[functions@[f as int].name as int]
                == names@[f as int]@);
        }
        line.push(Line { function_id, line: sym.lineno });
        proof {
            assert(syms@.take(k + 1) =~= syms@.take(k as int).push(syms@[k as int]));
            assert forall|j: int| 0 <= j < line@.len() implies (#[trigger] line@[j]).line == syms@.take(
                k + 1,
            )[j].lineno && 1 <= line@[j].function_id <= functions@.len() && 0 <= functions@[line@[j].function_id
                - 1].name < strings@.len() && strings@[functions@[line@[j].function_id - 1].name as int]
                == syms@.take(k + 1)[j].name@ by {
                if j < k {
                    assert(line@[j] == line0[j]);
                }
            }
        }
        if line.len() > 1 {
            match mapping_idx {
                Some(i) => {
                    let mut m = mappings[i];
                    m.has_inline_frames = true;
                    let ghost before = mappings@;
                    mappings.set(i, m);
                    assert(same_mappings(mappings@, before));
                    assert(forall|q: int|
                        0 <= q < mappings@.len() && q != i ==> (#[trigger] mappings@[q]).has_inline_frames
                            == before[q].has_inline_frames);
                },
                None => {},
            }
        }
        proof {
            assert(line@ == line0.push(Line { function_id, line: sym.lineno }));
            if functions@.len() == fs0.len() {
                assert(forall|q: int|
                    0 <= q < mappings@.len() ==> (#[trigger] mappings@[q]).has_functions == ms0[q].has_functions
                        && mappings@[q].has_filenames == ms0[q].has_filenames && mappings@[q].has_line_numbers
                        == ms0[q].has_line_numbers);
            } else {
                assert(forall|q: int|
                    0 <= q < mappings@.len() ==> (#[trigger] mappings@[q]).has_functions == (ms0[q].has_functions
                        || (mapping_idx matches Some(i) && i == q)) && mappings@[q].has_filenames == (
                    ms0[q].has_filenames || (mapping_idx matches Some(i) && i == q && sym.filename@.len() > 0))
                        && mappings@[q].has_line_numbers == (ms0[q].has_line_numbers || (
                    mapping_idx matches Some(i) && i == q && sym.lineno > 0)));
            }
            assert forall|j: int| 0 <= j < line0.len() implies 1 <= (#[trigger] line0[j]).function_id
                <= fs0.len() by {
                assert(lines_ok(line0, syms@.take(k as int), fs0, ss0));
            }
            if functions@.len() != fs0.len() {
                assert(function_from(functions@, fs0.len() as int, strings@, syms@[k as int]));
            }
            lemma_sourced_step(
                line0,
                line@,
                syms@,
                fs0,
                functions@,
                ss0,
                strings@,
                old(functions)@.len() as int,
            );
            lemma_flags_step(
                old(mappings)@,
                ms0,
                mappings@,
                mapping_idx,
                line0,
                line@,
                fs0,
                functions@,
                old(functions)@.len() as int,
                sym.filename@.len() > 0,
            );
        }
        k = k + 1;
    }
    let mapping_id = match mapping_idx {
        Some(i) => mappings[i].id,
        None => 0,
    };
    assert(syms@.take(k as int) =~= syms@);
    Location { id, mapping_id, address, line, is_folded: false }
}

/// Whether `sample` is the exported form of `stack`: its values, one
/// location per kept address (whose address is the kept address made
/// file-relative), and, for an annotated stack, one label per kept address
/// naming the annotation.
pub open spec fn sample_ok(
    sample: Sample,
    stack: (WeightedStack, Option<usize>),
    keys: Seq<u64>,
    table: Seq<Seq<char>>,
    mappings: Seq<Mapping>,
    symbols: Seq<(u64, Vec<ResolvedSymbol>)>,
    annotations: Seq<String>,
    anno_key: Seq<char>,
) -> bool {
    let kept = kept_addrs(symbols, stack.0.addrs@);
    &&& sample.value@ == stack.0.values@
    &&& sample.location_id@.len() == kept.len()
    &&& forall|j: int|
        0 <= j < kept.len() ==> 1 <= #[trigger] sample.location_id@[j] <= keys.len() && keys[sample.location_id@[j] - 1]
            == relative_spec(mappings, kept[j])
    &&& match stack.1 {
        None => sample.label@.len() == 0,
        Some(a) => {
            &&& sample.label@.len() == kept.len()
            &&& forall|j: int|
                0 <= j < kept.len() ==> 0 <= (#[trigger] sample.label@[j]).key < table.len() && 0
                    <= sample.label@[j].str < table.len() && table[sample.label@[j].key as int] == anno_key
                    && table[sample.label@[j].str as int] == annotations[a as int]@
        },
    }
}

proof fn lemma_sample_ok_grows(
    sample: Sample,
    stack: (WeightedStack, Option<usize>),
    keys: Seq<u64>,
    keys2: Seq<u64>,
    table: Seq<Seq<char>>,
    table2: Seq<Seq<char>>,
    mappings: Seq<Mapping>,
    symbols: Seq<(u64, Vec<ResolvedSymbol>)>,
    annotations: Seq<String>,
    anno_key: Seq<char>,
)
    requires
        sample_ok(sample, stack, keys, table, mappings, symbols, annotations, anno_key),
        keys.len() <= keys2.len(),
        forall|k: int| 0 <= k < keys.len() ==> #[trigger] keys2[k] == keys[k],
        extends(table, table2),
    ensures
        sample_ok(sample, stack, keys2, table2, mappings, symbols, annotations, anno_key),
{
    let kept = kept_addrs(symbols, stack.0.addrs@);
    assert forall|j: int| 0 <= j < kept.len() implies 1 <= #[trigger] sample.location_id@[j] <= keys2.len()
        && keys2[sample.location_id@[j] - 1] == relative_spec(mappings, kept[j]) by {
        assert(keys2[sample.location_id@[j] - 1] == keys[sample.location_id@[j] - 1]);
    }
    match stack.1 {
        None => {},
        Some(a) => {
            assert forall|j: int| 0 <= j < kept.len() implies 0 <= (
            #[trigger] sample.label@[j]).key < table2.len() && 0 <= sample.label@[j].str
                < table2.len() && table2[sample.label@[j].key as int] == anno_key
                && table2[sample.label@[j].str as int] == annotations[a as int]@ by {
                assert(table2[sample.label@[j].key as int] == table[sample.label@[j].key as int]);
                assert(table2[sample.label@[j].str as int] == table[sample.label@[j].str as int]);
            }
        },
    }
}

/// The location table being built: ids follow positions, `keys` holds the
/// addresses, each once.
pub open spec fn locations_wf(locations: Seq<Location>, keys: Seq<u64>) -> bool {
    &&& locations.len() == keys.len()
    &&& forall|k: int|
        0 <= k < locations.len() ==> (#[trigger] locations[k]).id == k + 1 && locations[k].address
            == keys[k]
    &&& forall|a: int, b: int| 0 <= a < b < keys.len() ==> #[trigger] keys[a] != #[trigger] keys[b]
}

/// Whether `index` finds each address of `keys` by its location id (its
/// position plus one), and holds no other address.
pub open spec fn index_ok(index: Map<u64, u64>, keys: Seq<u64>) -> bool {
    &&& forall|k: int| 0 <= k < keys.len() ==> #[trigger] index.contains_key(keys[k]) && index[keys[k]] == k + 1
    &&& forall|x: u64|
        #[trigger] index.contains_key(x) ==> 1 <= index[x] <= keys.len() && keys[index[x] - 1] == x
}

/// Whether each mapping's span and file offset keep relative addresses
/// within `u64`.
pub open spec fn mappings_fit(m: Seq<Mapping>) -> bool {
    forall|j: int|
        0 <= j < m.len() ==> (#[trigger] m[j]).memory_end - m[j].memory_start + m[j].file_offset
            <= u64::MAX
}

/// Builds the sample of stack `i`, adding the locations, functions and
/// strings it needs.
fn build_sample(
    profile: &StackProfile,
    i: usize,
    symbols: &Vec<(u64, Vec<ResolvedSymbol>)>,
    anno_key: &String,
    strings: &mut StringTable,
    mappings: &mut Vec<ProtoMapping>,
    functions: &mut Vec<Function>,
    names: &mut Vec<String>,
    locations: &mut Vec<Location>,
    keys: &mut Vec<u64>,
    index: &mut BTreeMap<u64, u64>,
) -> (sample: Sample)
    requires
        i < profile.stacks@.len(),
        profile.stacks@[i as int].1 matches Some(a) ==> a < profile.annotations@.len(),
        mappings_fit(profile.mappings@),
        old(mappings)@.len() == profile.mappings@.len(),
        forall|q: int| 0 <= q < old(mappings)@.len() ==> (#[trigger] old(mappings)@[q]).id == q + 1,
        old(strings).wf(),
        old(strings)@.len() + profile.stacks@[i as int].0.addrs@.len() * (2 + 3 * max_symbols(
            symbols@,
        )) < i64::MAX,
        old(functions)@.len() + profile.stacks@[i as int].0.addrs@.len() * max_symbols(symbols@)
            < i64::MAX,
        old(locations)@.len() + profile.stacks@[i as int].0.addrs@.len() < i64::MAX,
        functions_wf(old(functions)@, old(names)@, old(strings)@),
        locations_wf(old(locations)@, old(keys)@),
        index_ok(old(index)@, old(keys)@),
        old(keys)@ == first_occurrences(
            sampled_addresses(profile.stacks@.take(i as int), symbols@, profile.mappings@),
        ),
        locations_lines(old(locations)@, profile.mappings@, symbols@, old(functions)@, old(strings)@),
        inline_flags_ok(old(mappings)@, old(locations)@),
        function_table_ok(old(mappings)@, old(locations)@, old(functions)@),
        functions_sourced(old(locations)@, profile.mappings@, symbols@, old(functions)@, old(strings)@),
    ensures
        function_table_ok(final(mappings)@, final(locations)@, final(functions)@),
        functions_sourced(final(locations)@, profile.mappings@, symbols@, final(functions)@, final(strings)@),
        inline_flags_ok(final(mappings)@, final(locations)@),
        final(strings).wf(),
        extends(old(strings)@, final(strings)@),
        final(strings)@.len() <= old(strings)@.len() + profile.stacks@[i as int].0.addrs@.len() * (2
            + 3 * max_symbols(symbols@)),
        functions_wf(final(functions)@, final(names)@, final(strings)@),
        keeps_functions(old(functions)@, final(functions)@),
        locations_lines(final(locations)@, profile.mappings@, symbols@, final(functions)@, final(strings)@),
        final(functions)@.len() <= old(functions)@.len() + profile.stacks@[i as int].0.addrs@.len()
            * max_symbols(symbols@),
        same_mappings(final(mappings)@, old(mappings)@),
        locations_wf(final(locations)@, final(keys)@),
        index_ok(final(index)@, final(keys)@),
        final(keys)@ == first_occurrences(
            sampled_addresses(profile.stacks@.take(i + 1), symbols@, profile.mappings@),
        ),
        old(keys)@.len() <= final(keys)@.len() <= old(keys)@.len() + profile.stacks@[i as int].0.addrs@.len(),
        forall|k: int| 0 <= k < old(keys)@.len() ==> #[trigger] final(keys)@[k] == old(keys)@[k],
        sample_ok(
            sample,
            profile.stacks@[i as int],
            final(keys)@,
            final(strings)@,
            profile.mappings@,
            symbols@,
            profile.annotations@,
            anno_key@,
        ),
{
    let stack = &profile.stacks[i].0;
    let anno = profile.stacks[i].1;
    let ghost addrs = stack.addrs@;
    let ghost c: int = 2 + 3 * (max_symbols(symbols@) as int);
    let ghost ms: int = max_symbols(symbols@) as int;
    let ghost s0 = strings@.len();
    let ghost f0 = functions@.len();
    let ghost k0 = keys@;
    let ghost before = sampled_addresses(profile.stacks@.take(i as int), symbols@, profile.mappings@);
    let mut location_id: Vec<u64> = Vec::new();
    let mut label: Vec<Label> = Vec::new();
    let mut j: usize = 0;
    while j < stack.addrs.len()
        invariant
            j <= stack.addrs.len(),
            addrs == stack.addrs@,
            stack == &profile.stacks@[i as int].0,
            anno == profile.stacks@[i as int].1,
            anno matches Some(a) ==> a < profile.annotations@.len(),
            c == 2 + 3 * max_symbols(symbols@),
            ms == max_symbols(symbols@),
            mappings_fit(profile.mappings@),
            mappings@.len() == profile.mappings@.len(),
            forall|q: int| 0 <= q < old(mappings)@.len() ==> (#[trigger] old(mappings)@[q]).id == q + 1,
            strings.wf(),
            extends(old(strings)@, strings@),
            strings@.len() <= s0 + j * c,
            s0 == old(strings)@.len(),
            s0 + addrs.len() * c < i64::MAX,
            functions_wf(functions@, names@, strings@),
            keeps_functions(old(functions)@, functions@),
            locations_lines(locations@, profile.mappings@, symbols@, functions@, strings@),
            inline_flags_ok(mappings@, locations@),
            function_table_ok(mappings@, locations@, functions@),
            functions_sourced(locations@, profile.mappings@, symbols@, functions@, strings@),
            functions@.len() <= f0 + j * ms,
            f0 == old(functions)@.len(),
            f0 + addrs.len() * ms < i64::MAX,
            same_mappings(mappings@, old(mappings)@),
            locations_wf(locations@, keys@),
            k0 == old(keys)@,
            index_ok(index@, keys@),
            before == sampled_addresses(profile.stacks@.take(i as int), symbols@, profile.mappings@),
            keys@ == first_occurrences(
                before + relative_addrs(profile.mappings@, kept_addrs(symbols@, addrs.take(j as int))),
            ),
            k0.len() <= keys@.len() <= k0.len() + j,
            k0.len() + addrs.len() < i64::MAX,
            forall|k: int| 0 <= k < k0.len() ==> #[trigger] keys@[k] == k0[k],
            ({
                let kept = kept_addrs(symbols@, addrs.take(j as int));
                &&& location_id@.len() == kept.len()
                &&& forall|q: int|
                    0 <= q < kept.len() ==> 1 <= #[trigger] location_id@[q] <= keys@.len()
                        && keys@[location_id@[q] - 1] == relative_spec(profile.mappings@, kept[q])
                &&& match anno {
                    None => label@.len() == 0,
                    Some(a) => {
                        &&& label@.len() == kept.len()
                        &&& forall|q: int|
                            0 <= q < kept.len() ==> 0 <= (#[trigger] label@[q]).key < strings@.len()
                                && 0 <= label@[q].str < strings@.len() && strings@[label@[q].key as int]
                                == anno_key@ && strings@[label@[q].str as int]
                                == profile.annotations@[a as int]@
                    },
                }
            }),
        decreases stack.addrs.len() - j,
    {
        let addr = stack.addrs[j];
        let ghost kept_before = kept_addrs(symbols@, addrs.take(j as int));
        let ghost strings_before = strings@;
        let ghost keys_before = keys@;
        let ghost functions_before = functions@;
        let ghost mappings_before = mappings@;
        assert(addrs.take(j + 1).drop_last() =~= addrs.take(j as int));
        assert(addrs.take(j + 1).last() == addr);
        assert((j + 1) * c == j * c + c) by (nonlinear_arith);
        assert((j + 1) * ms == j * ms + ms) by (nonlinear_arith);
        assert(j * c + c <= addrs.len() * c) by (nonlinear_arith)
            requires
                j + 1 <= addrs.len(),
                c >= 0,
        ;
        assert(j * ms + ms <= addrs.len() * ms) by (nonlinear_arith)
            requires
                j + 1 <= addrs.len(),
                ms >= 0,
        ;
        if addr == 0 || is_internal_address(symbols, addr) {
            j = j + 1;
            continue;
        }
        let (mapping_idx, rel) = file_relative_address(&profile.mappings, addr);
        let ghost seen = before + relative_addrs(profile.mappings@, kept_before);
        proof {
            assert(kept_addrs(symbols@, addrs.take(j + 1)) == kept_before.push(addr));
            assert(before + relative_addrs(profile.mappings@, kept_before.push(addr)) =~= seen.push(rel));
            assert(seen.push(rel).drop_last() =~= seen);
        }
        let loc_id: u64 = match index.get(&rel) {
            Some(id) => {
                let id = *id;
                assert(keys@[id - 1] == rel);
                assert(keys@.contains(rel));
                id
            },
            None => {
                assert(!keys@.contains(rel)) by {
                    if keys@.contains(rel) {
                        let k = choose|k: int| 0 <= k < keys@.len() && keys@[k] == rel;
                        assert(index@.contains_key(keys@[k]));
                    }
                }
                let id = locations.len() as u64 + 1;
                let empty: Vec<ResolvedSymbol> = Vec::new();
                let sidx = symbols_index(symbols, addr);
                proof {
                    lemma_symbols_bounded(symbols@, addr);
                }
                let syms: &Vec<ResolvedSymbol> = match sidx {
                    Some(x) => &symbols[x].1,
                    None => &empty,
                };
                assert(syms@ == symbols_of(symbols@, addr));
                let loc = new_location(
                    strings,
                    mappings,
                    functions,
                    names,
                    syms,
                    mapping_idx,
                    id,
                    rel,
                );
                let ghost l0 = locations@;
                proof {
                    assert forall|jj: int| 0 <= jj < loc.line@.len() implies 1 <= (
                    #[trigger] loc.line@[jj]).function_id <= functions@.len() by {
                        assert(lines_ok(loc.line@, symbols_of(symbols@, addr), functions@, strings@));
                    }
                    match mapping_idx {
                        Some(mi) => {
                            assert(mappings_before[mi as int].id == old(mappings)@[mi as int].id);
                        },
                        None => {},
                    }
                    lemma_functions_sourced_push(
                        l0,
                        loc,
                        profile.mappings@,
                        symbols@,
                        addr,
                        functions_before,
                        functions@,
                        strings_before,
                        strings@,
                    );
                    lemma_function_table_push(
                        mappings_before,
                        mappings@,
                        l0,
                        loc,
                        mapping_idx,
                        functions_before,
                        functions@,
                    );
                    lemma_locations_lines_grow(
                        l0,
                        profile.mappings@,
                        symbols@,
                        functions_before,
                        strings_before,
                        functions@,
                        strings@,
                    );
                    assert(lines_ok(loc.line@, symbols_of(symbols@, addr), functions@, strings@));
                    assert(loc.mapping_id == mapping_number(profile.mappings@, addr)) by {
                        match mapping_idx {
                            Some(mi) => {
                                assert(mappings_before[mi as int].id == old(mappings)@[mi as int].id);
                            },
                            None => {},
                        }
                    }
                    assert(location_lines_ok(loc, profile.mappings@, symbols@, functions@, strings@));
                }
                locations.push(loc);
                keys.push(rel);
                let ghost index_before = index@;
                index.insert(rel, id);
                assert forall|k: int| 0 <= k < keys@.len() implies #[trigger] index@.contains_key(keys@[k])
                    && index@[keys@[k]] == k + 1 by {
                    if k < keys_before.len() {
                        assert(keys@[k] == keys_before[k]);
                        assert(index_before.contains_key(keys_before[k]));
                    }
                }
                assert forall|x: u64| #[trigger] index@.contains_key(x) implies 1 <= index@[x]
                    <= keys@.len() && keys@[index@[x] - 1] == x by {
                    if x != rel {
                        assert(index_before.contains_key(x));
                        assert(keys@[index_before[x] - 1] == keys_before[index_before[x] - 1]);
                    }
                }
                assert forall|a: int, b: int| 0 <= a < b < keys@.len() implies #[trigger] keys@[a]
                    != #[trigger] keys@[b] by {
                    if b == keys@.len() - 1 {
                        assert(keys@[a] == keys_before[a]);
                    }
                }
                assert forall|k: int| 0 <= k < locations@.len() implies (
                #[trigger] locations@[k]).id == k + 1 && locations@[k].address == keys@[k] by {
                    if k < l0.len() {
                        assert(locations@[k] == l0[k]);
                    }
                }
                assert forall|q: int| 0 <= q < mappings@.len() implies ((#[trigger] mappings@[q]).has_inline_frames
                    <==> has_inline_location(locations@, q + 1)) by {
                    assert(mappings_before[q].id == old(mappings)@[q].id);
                    if has_inline_location(l0, q + 1) {
                        let l = choose|l: int|
                            0 <= l < l0.len() && (#[trigger] l0[l]).mapping_id == q + 1 && l0[l].line@.len() > 1;
                        assert(locations@[l] == l0[l]);
                    }
                    if has_inline_location(locations@, q + 1) {
                        let l = choose|l: int|
                            0 <= l < locations@.len() && (#[trigger] locations@[l]).mapping_id == q + 1
                                && locations@[l].line@.len() > 1;
                        if l < l0.len() {
                            assert(locations@[l] == l0[l]);
                        }
                    }
                    if mapping_idx matches Some(mi) && mi == q && loc.line@.len() > 1 {
                        assert(locations@[l0.len() as int] == loc);
                    }
                }
                assert forall|k: int| 0 <= k < locations@.len() implies location_lines_ok(
                    #[trigger] locations@[k],
                    profile.mappings@,
                    symbols@,
                    functions@,
                    strings@,
                ) by {
                    if k < l0.len() {
                        assert(locations@[k] == l0[k]);
                    }
                }
                id
            },
        };
        location_id.push(loc_id);
        let ghost strings_mid = strings@;
        match anno {
            Some(a) => {
                let key = strings.insert(anno_key.as_str());
                let text = strings.insert(profile.annotations[a].as_str());
                label.push(Label { key, str: text, num: 0, num_unit: 0 });
            },
            None => {},
        }
        proof {
            lemma_locations_lines_grow(
                locations@,
                profile.mappings@,
                symbols@,
                functions@,
                strings_mid,
                functions@,
                strings@,
            );
            lemma_functions_sourced_grow(
                locations@,
                profile.mappings@,
                symbols@,
                functions@,
                strings_mid,
                strings@,
            );
            let kept = kept_addrs(symbols@, addrs.take(j + 1));
            assert(kept == kept_before.push(addr));
            assert forall|q: int| 0 <= q < kept.len() implies 1 <= #[trigger] location_id@[q]
                <= keys@.len() && keys@[location_id@[q] - 1] == relative_spec(
                profile.mappings@,
                kept[q],
            ) by {
                if q < kept_before.len() {
                    assert(kept[q] == kept_before[q]);
                    assert(keys@[location_id@[q] - 1] == keys_before[location_id@[q] - 1]);
                }
            }
            match anno {
                None => {},
                Some(a) => {
                    assert forall|q: int| 0 <= q < kept.len() implies 0 <= (
                    #[trigger] label@[q]).key < strings@.len() && 0 <= label@[q].str < strings@.len()
                        && strings@[label@[q].key as int] == anno_key@ && strings@[label@[q].str as int]
                        == profile.annotations@[a as int]@ by {
                        if q < kept_before.len() {
                            assert(strings@[label@[q].key as int] == strings_before[label@[q].key as int]);
                            assert(strings@[label@[q].str as int] == strings_before[label@[q].str as int]);
                        }
                    }
                },
            }
        }
        j = j + 1;
    }
    assert(addrs.take(j as int) =~= addrs);
    assert(profile.stacks@.take(i + 1).drop_last() =~= profile.stacks@.take(i as int));
    assert(profile.stacks@.take(i + 1).last() == profile.stacks@[i as int]);
    Sample { location_id, value: stack.values.clone(), label }
}

/// The bound on the string table of the profile of `p` that keeps every
/// string index within `i64`: the empty text, two texts per sample type and
/// for the period type, the default type, two per mapping, and per address
/// two label texts and three texts per symbol.
pub open spec fn text_budget(
    p: &StackProfile,
    sample_type_count: int,
    symbols: Seq<(u64, Vec<ResolvedSymbol>)>,
) -> int {
    1 + 2 * sample_type_count + 3 + 2 * p.mappings@.len() + addr_total(p.stacks@) * (2 + 3 * (
    max_symbols(symbols) as int))
}

/// The gzip stream that flate2's `GzEncoder` writes for `data` at the
/// default compression level, with the default header (no file name, no
/// time stamp).
pub uninterp spec fn gzip_bytes(data: Seq<u8>) -> Seq<u8>;

/// Compresses `data` with flate2's `GzEncoder` (default level, default
/// header) into a `Vec`: the result is the name `gzip_bytes` of `data`.
/// Writing into a `Vec` does not fail.
#[verifier::external_body]
fn gzip(data: &[u8]) -> (r: Vec<u8>)
    ensures
        r@ == gzip_bytes(data@),
{
    let mut gz = GzEncoder::new(Vec::new(), Compression::default());
    gz.write_all(data).expect("writing to a Vec does not fail");
    gz.finish().expect("writing to a Vec does not fail")
}

/// The text under which labels name a stack's annotation: `anno_key`,
/// `annotation` by default.
pub open spec fn anno_key_text(anno_key: Option<String>) -> Seq<char> {
    match anno_key {
        Some(k) => k@,
        None => "annotation"@,
    }
}

/// Whether `r` is the pprof form of `p` (see [`StackProfile::to_pprof_proto`])
/// with the sample types `sample_types`, period type `period_type`, period
/// `period`, label key `key`, time `time_nanos` and symbols `symbols`.
pub open spec fn pprof_proto_ok(
    p: StackProfile,
    sample_types: Seq<(String, String)>,
    period_type: (Seq<char>, Seq<char>),
    period: i64,
    key: Seq<char>,
    time_nanos: i64,
    symbols: Seq<(u64, Vec<ResolvedSymbol>)>,
    r: Profile,
) -> bool {
    let table = texts(r.string_table@);
    &&& r.drop_frames == 0 && r.keep_frames == 0 && r.duration_nanos == 0 && r.comment@.len() == 0
    &&& table.len() >= 1 && table[0] == Seq::<char>::empty() && distinct_texts(table)
    &&& r.sample_type@.len() == sample_types.len()
    &&& forall|k: int|
        0 <= k < sample_types.len() ==> 0 <= (#[trigger] r.sample_type@[k]).ty
            < table.len() && 0 <= r.sample_type@[k].unit < table.len()
            && table[r.sample_type@[k].ty as int] == sample_types[k].0@
            && table[r.sample_type@[k].unit as int] == sample_types[k].1@
    &&& r.period_type matches Some(pt) && 0 <= pt.ty < table.len() && 0 <= pt.unit
        < table.len() && table[pt.ty as int] == period_type.0 && table[pt.unit as int]
        == period_type.1
    &&& r.period == period
    &&& r.time_nanos == time_nanos
    &&& 0 <= r.default_sample_type < table.len() && table[r.default_sample_type as int]
        == sample_types.last().0@
    &&& r.mapping@.len() == p.mappings@.len()
    &&& forall|k: int|
        0 <= k < p.mappings@.len() ==> (#[trigger] r.mapping@[k]).id == k + 1
            && r.mapping@[k].memory_start == 0 && r.mapping@[k].memory_limit == 0
            && r.mapping@[k].file_offset == 0 && 0 <= r.mapping@[k].filename < table.len()
            && table[r.mapping@[k].filename as int] == p.mappings@[k].pathname@
            && match p.mappings@[k].build_id {
            Some(b) => 0 <= r.mapping@[k].build_id < table.len()
                && table[r.mapping@[k].build_id as int] == hex_text(b.0@),
            None => r.mapping@[k].build_id == 0,
        }
    &&& r.location@.map_values(|l: Location| l.address) == first_occurrences(
        sampled_addresses(p.stacks@, symbols, p.mappings@),
    )
    &&& forall|k: int|
        0 <= k < r.location@.len() ==> (#[trigger] r.location@[k]).id == k + 1
    &&& forall|a: int, b: int|
        0 <= a < b < r.location@.len() ==> (#[trigger] r.location@[a]).address
            != (#[trigger] r.location@[b]).address
    &&& forall|k: int|
        0 <= k < r.function@.len() ==> (#[trigger] r.function@[k]).id == k + 1
    &&& locations_lines(r.location@, p.mappings@, symbols, r.function@, table)
    &&& inline_flags_ok(r.mapping@, r.location@)
    &&& function_table_ok(r.mapping@, r.location@, r.function@)
    &&& functions_sourced(r.location@, p.mappings@, symbols, r.function@, table)
    &&& r.sample@.len() == p.stacks@.len()
    &&& forall|i: int|
        0 <= i < p.stacks@.len() ==> sample_ok(
            #[trigger] r.sample@[i],
            p.stacks@[i],
            r.location@.map_values(|l: Location| l.address),
            table,
            p.mappings@,
            symbols,
            p.annotations@,
            key,
        )
}

impl StackProfile {
    /// Converts the profile into the pprof protobuf messages: the sample
    /// types and period type named in the string table, the default sample
    /// type (the last one), each mapping with its file name and build ID,
    /// and one sample per stack whose locations are the stack's addresses
    /// (zero addresses and this crate's own frames left out) made relative
    /// to their mapping's file. The location table holds exactly the
    /// addresses that samples use, numbered in the order of first use; each
    /// location carries the number of its mapping and the source lines of the symbols it
    /// resolves to (from `symbols`), a mapping marked as having inline
    /// frames exactly when one of its locations has more than one line, and
    /// as having functions, file names and line numbers after the functions
    /// first named in its locations (see [`function_flags_ok`]). Each
    /// function is made, once per name, from the symbol of the line that
    /// first names it.
    /// Labels name a stack's annotation under `anno_key` (default
    /// `annotation`).
    pub fn to_pprof_proto(
        &self,
        sample_types: &Vec<(String, String)>,
        period_type: (&str, &str),
        period: i64,
        anno_key: Option<String>,
        time_nanos: i64,
        symbols: &Vec<(u64, Vec<ResolvedSymbol>)>,
    ) -> (r: Profile)
        requires
            sample_types@.len() > 0,
            forall|i: int|
                0 <= i < self.stacks@.len() ==> (#[trigger] self.stacks@[i]).0.values@.len()
                    == sample_types@.len(),
            forall|i: int|
                0 <= i < self.stacks@.len() ==> ((#[trigger] self.stacks@[i]).1 matches Some(a) ==> a
                    < self.annotations@.len()),
            mappings_fit(self.mappings@),
            text_budget(self, sample_types@.len() as int, symbols@) < i64::MAX,
        ensures
            pprof_proto_ok(
                *self,
                sample_types@,
                (period_type.0@, period_type.1@),
                period,
                anno_key_text(anno_key),
                time_nanos,
                symbols@,
                r,
            ),
    {
        let ghost ms: int = max_symbols(symbols@) as int;
        let ghost c: int = 2 + 3 * ms;
        let ghost total = addr_total(self.stacks@);
        let mut strings = StringTable::new();
        let anno_key = match anno_key {
            Some(k) => k,
            None => String::from_str("annotation"),
        };
        let mut sample_type: Vec<ValueType> = Vec::new();
        let mut k: usize = 0;
        while k < sample_types.len()
            invariant
                k <= sample_types@.len(),
                strings.wf(),
                strings@.len() <= 1 + 2 * k,
                1 + 2 * sample_types@.len() + 3 < i64::MAX,
                sample_type@.len() == k,
                forall|q: int|
                    0 <= q < k ==> 0 <= (#[trigger] sample_type@[q]).ty < strings@.len() && 0
                        <= sample_type@[q].unit < strings@.len() && strings@[sample_type@[q].ty as int]
                        == sample_types@[q].0@ && strings@[sample_type@[q].unit as int]
                        == sample_types@[q].1@,
            decreases sample_types@.len() - k,
        {
            let ghost before = strings@;
            let ty = strings.insert(sample_types[k].0.as_str());
            let unit = strings.insert(sample_types[k].1.as_str());
            sample_type.push(ValueType { ty, unit });
            assert forall|q: int| 0 <= q < k + 1 implies 0 <= (#[trigger] sample_type@[q]).ty
                < strings@.len() && 0 <= sample_type@[q].unit < strings@.len()
                && strings@[sample_type@[q].ty as int] == sample_types@[q].0@
                && strings@[sample_type@[q].unit as int] == sample_types@[q].1@ by {
                if q < k {
                    assert(strings@[sample_type@[q].ty as int] == before[sample_type@[q].ty as int]);
                    assert(strings@[sample_type@[q].unit as int] == before[sample_type@[q].unit as int]);
                }
            }
            k = k + 1;
        }
        let ghost after_types = strings@;
        let pt = ValueType { ty: strings.insert(period_type.0), unit: strings.insert(period_type.1) };
        let default_sample_type = strings.insert(sample_types[sample_types.len() - 1].0.as_str());
        let ghost header = strings@;
        assert(extends(after_types, header));
        let mut mapping: Vec<ProtoMapping> = Vec::new();
        let mut m: usize = 0;
        while m < self.mappings.len()
            invariant
                m <= self.mappings@.len(),
                strings.wf(),
                extends(header, strings@),
                strings@.len() <= header.len() + 2 * m,
                header.len() <= 1 + 2 * sample_types@.len() + 3,
                text_budget(self, sample_types@.len() as int, symbols@) < i64::MAX,
                mapping@.len() == m,
                forall|q: int|
                    0 <= q < m ==> !(#[trigger] mapping@[q]).has_inline_frames && !mapping@[q].has_functions
                        && !mapping@[q].has_filenames && !mapping@[q].has_line_numbers,
                forall|q: int|
                    0 <= q < m ==> (#[trigger] mapping@[q]).id == q + 1 && mapping@[q].memory_start
                        == 0 && mapping@[q].memory_limit == 0 && mapping@[q].file_offset == 0 && 0
                        <= mapping@[q].filename < strings@.len() && strings@[mapping@[q].filename as int]
                        == self.mappings@[q].pathname@ && match self.mappings@[q].build_id {
                        Some(b) => 0 <= mapping@[q].build_id < strings@.len()
                            && strings@[mapping@[q].build_id as int] == hex_text(b.0@),
                        None => mapping@[q].build_id == 0,
                    },
            decreases self.mappings@.len() - m,
        {
            proof {
                assert(addr_total(self.stacks@) * (2 + 3 * (max_symbols(symbols@) as int)) >= 0)
                    by (nonlinear_arith)
                    requires
                        addr_total(self.stacks@) >= 0,
                ;
            }
            let ghost before = strings@;
            let filename = strings.insert(self.mappings[m].pathname.as_str());
            let build_id = match &self.mappings[m].build_id {
                Some(b) => strings.insert(b.to_hex().as_str()),
                None => 0,
            };
            mapping.push(
                ProtoMapping {
                    id: (m as u64) + 1,
                    memory_start: 0,
                    memory_limit: 0,
                    file_offset: 0,
                    filename,
                    build_id,
                    has_functions: false,
                    has_filenames: false,
                    has_line_numbers: false,
                    has_inline_frames: false,
                },
            );
            assert forall|q: int| 0 <= q < m + 1 implies (#[trigger] mapping@[q]).id == q + 1
                && mapping@[q].memory_start == 0 && mapping@[q].memory_limit == 0
                && mapping@[q].file_offset == 0 && 0 <= mapping@[q].filename < strings@.len()
                && strings@[mapping@[q].filename as int] == self.mappings@[q].pathname@
                && match self.mappings@[q].build_id {
                Some(b) => 0 <= mapping@[q].build_id < strings@.len()
                    && strings@[mapping@[q].build_id as int] == hex_text(b.0@),
                None => mapping@[q].build_id == 0,
            } by {
                if q < m {
                    assert(strings@[mapping@[q].filename as int] == before[mapping@[q].filename as int]);
                    match self.mappings@[q].build_id {
                        Some(b) => {
                            assert(strings@[mapping@[q].build_id as int]
                                == before[mapping@[q].build_id as int]);
                        },
                        None => {},
                    }
                }
            }
            m = m + 1;
        }
        let ghost after_mappings = strings@;
        let ghost mapping0 = mapping@;
        assert(inline_flags_ok(mapping@, Seq::<Location>::empty()));
        assert(function_table_ok(mapping@, Seq::<Location>::empty(), Seq::<Function>::empty()));
        let mut functions: Vec<Function> = Vec::new();
        let mut names: Vec<String> = Vec::new();
        let mut locations: Vec<Location> = Vec::new();
        let mut keys: Vec<u64> = Vec::new();
        let mut index: BTreeMap<u64, u64> = BTreeMap::new();
        assert(self.stacks@.take(0) =~= Seq::<(WeightedStack, Option<usize>)>::empty());
        let mut samples: Vec<Sample> = Vec::new();
        let mut i: usize = 0;
        while i < self.stacks.len()
            invariant
                i <= self.stacks@.len(),
                forall|q: int|
                    0 <= q < self.stacks@.len() ==> ((#[trigger] self.stacks@[q]).1 matches Some(a)
                        ==> a < self.annotations@.len()),
                mappings_fit(self.mappings@),
                ms == max_symbols(symbols@),
                c == 2 + 3 * ms,
                total == addr_total(self.stacks@),
                after_mappings.len() + total * c < i64::MAX,
                strings.wf(),
                extends(after_mappings, strings@),
                strings@.len() <= after_mappings.len() + addr_total(self.stacks@.take(i as int)) * c,
                functions_wf(functions@, names@, strings@),
                locations_lines(locations@, self.mappings@, symbols@, functions@, strings@),
                functions@.len() <= addr_total(self.stacks@.take(i as int)) * ms,
                same_mappings(mapping@, mapping0),
                mapping0.len() == self.mappings@.len(),
                inline_flags_ok(mapping@, locations@),
                function_table_ok(mapping@, locations@, functions@),
                functions_sourced(locations@, self.mappings@, symbols@, functions@, strings@),
                forall|q: int| 0 <= q < mapping@.len() ==> (#[trigger] mapping@[q]).id == q + 1,
                locations_wf(locations@, keys@),
                index_ok(index@, keys@),
                keys@ == first_occurrences(sampled_addresses(self.stacks@.take(i as int), symbols@, self.mappings@)),
                keys@.len() <= addr_total(self.stacks@.take(i as int)),
                samples@.len() == i,
                forall|q: int|
                    0 <= q < i ==> sample_ok(
                        #[trigger] samples@[q],
                        self.stacks@[q],
                        keys@,
                        strings@,
                        self.mappings@,
                        symbols@,
                        self.annotations@,
                        anno_key@,
                    ),
            decreases self.stacks@.len() - i,
        {
            proof {
                lemma_addr_total_prefix(self.stacks@, i as int);
                let at = addr_total(self.stacks@.take(i as int));
                let ai = self.stacks@[i as int].0.addrs@.len();
                assert(at * c + ai * c <= total * c) by (nonlinear_arith)
                    requires
                        at + ai <= total,
                        c >= 2,
                ;
                assert(at * ms + ai * ms <= total * ms) by (nonlinear_arith)
                    requires
                        at + ai <= total,
                        ms >= 0,
                ;
                assert(total * ms <= total * c) by (nonlinear_arith)
                    requires
                        ms <= c,
                        total >= 0,
                ;
                assert(at + ai <= total * c) by (nonlinear_arith)
                    requires
                        at + ai <= total,
                        c >= 2,
                ;
                assert((at + ai) * c == at * c + ai * c) by (nonlinear_arith);
                assert((at + ai) * ms == at * ms + ai * ms) by (nonlinear_arith);
            }
            let ghost keys_before = keys@;
            let ghost strings_before = strings@;
            let sample = build_sample(
                self,
                i,
                symbols,
                &anno_key,
                &mut strings,
                &mut mapping,
                &mut functions,
                &mut names,
                &mut locations,
                &mut keys,
                &mut index,
            );
            proof {
                assert forall|q: int| 0 <= q < i implies sample_ok(
                    #[trigger] samples@[q],
                    self.stacks@[q],
                    keys@,
                    strings@,
                    self.mappings@,
                    symbols@,
                    self.annotations@,
                    anno_key@,
                ) by {
                    lemma_sample_ok_grows(
                        samples@[q],
                        self.stacks@[q],
                        keys_before,
                        keys@,
                        strings_before,
                        strings@,
                        self.mappings@,
                        symbols@,
                        self.annotations@,
                        anno_key@,
                    );
                }
            }
            samples.push(sample);
            i = i + 1;
        }
        assert(self.stacks@.take(i as int) =~= self.stacks@);
        let ghost final_strings = strings@;
        let string_table = strings.finish();
        let ghost addresses = locations@.map_values(|l: Location| l.address);
        assert(addresses =~= keys@);
        let r = Profile {
            sample_type,
            sample: samples,
            mapping,
            location: locations,
            function: functions,
            string_table,
            drop_frames: 0,
            keep_frames: 0,
            time_nanos,
            duration_nanos: 0,
            period_type: Some(pt),
            period,
            comment: Vec::new(),
            default_sample_type,
        };
        proof {
            reveal_strlit("annotation");
        }
        r
    }

    /// Converts the profile into pprof (as [`StackProfile::to_pprof_proto`]
    /// does), encodes the messages with `encode` (the protobuf wire format)
    /// and compresses the encoding with gzip.
    pub fn to_pprof_with_period<F: FnOnce(Profile) -> Vec<u8>>(
        &self,
        sample_types: &Vec<(String, String)>,
        period_type: (&str, &str),
        period: i64,
        anno_key: Option<String>,
        time_nanos: i64,
        symbols: &Vec<(u64, Vec<ResolvedSymbol>)>,
        encode: F,
    ) -> (r: Vec<u8>)
        requires
            sample_types@.len() > 0,
            forall|i: int|
                0 <= i < self.stacks@.len() ==> (#[trigger] self.stacks@[i]).0.values@.len()
                    == sample_types@.len(),
            forall|i: int|
                0 <= i < self.stacks@.len() ==> ((#[trigger] self.stacks@[i]).1 matches Some(a) ==> a
                    < self.annotations@.len()),
            mappings_fit(self.mappings@),
            text_budget(self, sample_types@.len() as int, symbols@) < i64::MAX,
            forall|p: Profile| encode.requires((p,)),
        ensures
            exists|p: Profile, bytes: Vec<u8>|
                #![trigger encode.ensures((p,), bytes)]
                pprof_proto_ok(
                    *self,
                    sample_types@,
                    (period_type.0@, period_type.1@),
                    period,
                    anno_key_text(anno_key),
                    time_nanos,
                    symbols@,
                    p,
                ) && encode.ensures((p,), bytes) && r@ == gzip_bytes(bytes@),
    {
        let ghost key = anno_key_text(anno_key);
        let profile = self.to_pprof_proto(sample_types, period_type, period, anno_key, time_nanos, symbols);
        let ghost p = profile;
        let encoded = encode(profile);
        let r = gzip(encoded.as_slice());
        assert(pprof_proto_ok(
            *self,
            sample_types@,
            (period_type.0@, period_type.1@),
            period,
            key,
            time_nanos,
            symbols@,
            p,
        ) && encode.ensures((p,), encoded) && r@ == gzip_bytes(encoded@));
        r
    }
}

} // verus!
