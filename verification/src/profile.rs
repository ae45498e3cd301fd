//! The stack-attributed allocation profile: which sampled pointer is owned by
//! which stack, and the running totals of each stack.
//!
//! Both tables are concurrent `DashMap`s. The library reaches them through the
//! trusted items below, whose contracts say what each `DashMap` method does to
//! the table's contents; everything above them is verified against those
//! contracts. The tables are private to [`ProfileTables`], which changes them
//! only through `&mut self`, so no other reference can change a table while
//! it is read.
use crate::stats::Allocations;
use dashmap::DashMap;
use vstd::prelude::*;

verus! {

#[verifier::external_type_specification]
#[verifier::external_body]
#[verifier::reject_recursive_types(K)]
#[verifier::reject_recursive_types(V)]
#[verifier::reject_recursive_types(S)]
pub struct ExDashMap<K, V, S>(DashMap<K, V, S>);

/// The table of sampled pointers.
pub type PointerTable = DashMap<usize, AllocationRecord>;

/// The table of per-stack totals.
pub type TraceTable = DashMap<Vec<u64>, Allocations>;

/// One sampled allocation: its size and the stack that made it, leaf first.
#[derive(Clone, Debug)]
pub struct AllocationRecord {
    pub size: usize,
    pub trace: Vec<u64>,
}

impl View for AllocationRecord {
    type V = (usize, Seq<u64>);

    open spec fn view(&self) -> (usize, Seq<u64>) {
        (self.size, self.trace@)
    }
}

/// What the pointer table holds: for each sampled pointer, its record.
pub uninterp spec fn pointer_entries(m: DashMap<usize, AllocationRecord>) -> Map<
    usize,
    (usize, Seq<u64>),
>;

/// What the stack table holds: for each stack, its totals.
pub uninterp spec fn trace_entries(m: DashMap<Vec<u64>, Allocations>) -> Map<Seq<u64>, Allocations>;

/// A pointer table with nothing in it.
pub open spec fn no_pointers() -> Map<usize, (usize, Seq<u64>)> {
    Map::empty()
}

/// A stack table with nothing in it.
pub open spec fn no_traces() -> Map<Seq<u64>, Allocations> {
    Map::empty()
}

/// `DashMap::new` for the pointer table: an empty table.
#[verifier::external_body]
fn pointer_table_new() -> (r: PointerTable)
    ensures
        pointer_entries(r) == no_pointers(),
        pointer_entries(r).dom().finite(),
{
    DashMap::new()
}

/// `DashMap::insert` on the pointer table: `ptr` maps to `record` afterwards,
/// nothing else changes, and the record it replaced comes back.
#[verifier::external_body]
fn pointer_table_insert(
    m: &mut DashMap<usize, AllocationRecord>,
    ptr: usize,
    record: AllocationRecord,
) -> (prev: Option<AllocationRecord>)
    ensures
        pointer_entries(*final(m)) == pointer_entries(*old(m)).insert(ptr, record@),
        pointer_entries(*old(m)).dom().finite() ==> pointer_entries(*final(m)).dom().finite(),
        match prev {
            Some(p) => pointer_entries(*old(m)).contains_key(ptr) && pointer_entries(
                *old(m),
            )[ptr] == p@,
            None => !pointer_entries(*old(m)).contains_key(ptr),
        },
{
    m.insert(ptr, record)
}

/// `DashMap::remove` on the pointer table: `ptr` is gone afterwards, and
/// its record comes back if it had one.
#[verifier::external_body]
fn pointer_table_remove(m: &mut DashMap<usize, AllocationRecord>, ptr: usize) -> (r: Option<
    AllocationRecord,
>)
    ensures
        pointer_entries(*final(m)) == pointer_entries(*old(m)).remove(ptr),
        pointer_entries(*old(m)).dom().finite() ==> pointer_entries(*final(m)).dom().finite(),
        match r {
            Some(p) => pointer_entries(*old(m)).contains_key(ptr) && pointer_entries(
                *old(m),
            )[ptr] == p@,
            None => !pointer_entries(*old(m)).contains_key(ptr),
        },
{
    m.remove(&ptr).map(|(_, record)| record)
}

/// `DashMap::get` on the pointer table, cloning the record found.
#[verifier::external_body]
fn pointer_table_get(m: &DashMap<usize, AllocationRecord>, ptr: usize) -> (r: Option<
    AllocationRecord,
>)
    ensures
        match r {
            Some(p) => pointer_entries(*m).contains_key(ptr) && pointer_entries(*m)[ptr] == p@,
            None => !pointer_entries(*m).contains_key(ptr),
        },
{
    m.get(&ptr).map(|entry| entry.value().clone())
}

/// `DashMap::len` on the pointer table: the number of pointers in it.
#[verifier::external_body]
fn pointer_table_len(m: &DashMap<usize, AllocationRecord>) -> (r: usize)
    ensures
        r == pointer_entries(*m).len(),
{
    m.len()
}

/// `DashMap::new` for the stack table: an empty table.
#[verifier::external_body]
fn trace_table_new() -> (r: TraceTable)
    ensures
        trace_entries(r) == no_traces(),
        trace_entries(r).dom().finite(),
{
    DashMap::new()
}

/// `DashMap::get` on the stack table, copying the totals found.
#[verifier::external_body]
fn trace_table_get(m: &DashMap<Vec<u64>, Allocations>, trace: &Vec<u64>) -> (r: Option<
    Allocations,
>)
    ensures
        match r {
            Some(a) => trace_entries(*m).contains_key(trace@) && trace_entries(*m)[trace@] == a,
            None => !trace_entries(*m).contains_key(trace@),
        },
{
    m.get(trace).map(|entry| *entry.value())
}

/// `DashMap::insert` on the stack table: `trace` maps to `totals`
/// afterwards and nothing else changes.
#[verifier::external_body]
fn trace_table_insert(m: &mut DashMap<Vec<u64>, Allocations>, trace: Vec<u64>, totals: Allocations)
    ensures
        trace_entries(*final(m)) == trace_entries(*old(m)).insert(trace@, totals),
        trace_entries(*old(m)).dom().finite() ==> trace_entries(*final(m)).dom().finite(),
{
    m.insert(trace, totals);
}

/// Walks the stack table (`DashMap::iter`), copying out every entry. The
/// order of the walk is left open: each stack of the table comes out exactly
/// once, with its totals.
#[verifier::external_body]
fn trace_table_entries(m: &DashMap<Vec<u64>, Allocations>) -> (r: Vec<(Vec<u64>, Allocations)>)
    ensures
        r@.len() == trace_entries(*m).len(),
        forall|i: int|
            0 <= i < r@.len() ==> trace_entries(*m).contains_key(#[trigger] r@[i].0@)
                && trace_entries(*m)[r@[i].0@] == r@[i].1,
        forall|i: int, j: int|
            0 <= i < j < r@.len() ==> #[trigger] r@[i].0@ != #[trigger] r@[j].0@,
        forall|k: Seq<u64>|
            trace_entries(*m).contains_key(k) ==> exists|i: int|
                0 <= i < r@.len() && #[trigger] r@[i].0@ == k,
{
    m.iter().map(|entry| (entry.key().clone(), *entry.value())).collect()
}

/// The totals of stack `t` in `traces`: zero when the stack is not there.
pub open spec fn totals_of(traces: Map<Seq<u64>, Allocations>, t: Seq<u64>) -> Allocations {
    if traces.contains_key(t) {
        traces[t]
    } else {
        Allocations { allocated: 0, freed: 0, allocations: 0, frees: 0 }
    }
}

/// The two tables, taken by their contents.
pub ghost struct ProfileView {
    pub pointers: Map<usize, (usize, Seq<u64>)>,
    pub traces: Map<Seq<u64>, Allocations>,
}

/// Whether recording an allocation of `size` bytes on stack `t` keeps the
/// stack's totals within `u64`.
pub open spec fn alloc_fits(v: ProfileView, size: usize, t: Seq<u64>) -> bool {
    totals_of(v.traces, t).allocated + size <= u64::MAX && totals_of(v.traces, t).allocations + 1
        <= u64::MAX
}

/// The profile after a sampled allocation of `size` bytes at `ptr` on stack
/// `t`: the pointer is owned by the stack, whose allocated bytes and count
/// grow.
pub open spec fn alloc_spec(v: ProfileView, ptr: usize, size: usize, t: Seq<u64>) -> ProfileView {
    let a = totals_of(v.traces, t);
    ProfileView {
        pointers: v.pointers.insert(ptr, (size, t)),
        traces: v.traces.insert(
            t,
            Allocations {
                allocated: (a.allocated + size) as u64,
                freed: a.freed,
                allocations: (a.allocations + 1) as u64,
                frees: a.frees,
            },
        ),
    }
}

/// Whether recording a free of `size` bytes on stack `t` keeps the stack's
/// totals within `u64`.
pub open spec fn free_fits(v: ProfileView, size: usize, t: Seq<u64>) -> bool {
    totals_of(v.traces, t).freed + size <= u64::MAX && totals_of(v.traces, t).frees + 1 <= u64::MAX
}

/// The profile after `size` bytes owned by stack `t` are freed: the stack's
/// freed bytes and count grow.
pub open spec fn free_spec(v: ProfileView, size: usize, t: Seq<u64>) -> ProfileView {
    let a = totals_of(v.traces, t);
    ProfileView {
        pointers: v.pointers,
        traces: v.traces.insert(
            t,
            Allocations {
                allocated: a.allocated,
                freed: (a.freed + size) as u64,
                allocations: a.allocations,
                frees: (a.frees + 1) as u64,
            },
        ),
    }
}

/// The pointer and stack tables of the wrapper profiler.
pub struct ProfileTables {
    pointers: PointerTable,
    traces: TraceTable,
}

impl View for ProfileTables {
    type V = ProfileView;

    closed spec fn view(&self) -> ProfileView {
        ProfileView { pointers: pointer_entries(self.pointers), traces: trace_entries(self.traces) }
    }
}

impl ProfileTables {
    /// Both tables hold finitely many entries.
    pub closed spec fn wf(&self) -> bool {
        pointer_entries(self.pointers).dom().finite() && trace_entries(self.traces).dom().finite()
    }

    /// Empty tables.
    pub fn new() -> (r: ProfileTables)
        ensures
            r.wf(),
            r@.pointers == no_pointers(),
            r@.traces == no_traces(),
    {
        ProfileTables { pointers: pointer_table_new(), traces: trace_table_new() }
    }

    /// The number of sampled pointers currently owned by a stack.
    pub fn pointer_count(&self) -> (r: usize)
        ensures
            r == self@.pointers.len(),
    {
        pointer_table_len(&self.pointers)
    }

    /// Whether `ptr` is a sampled pointer currently owned by a stack.
    pub fn contains_pointer(&self, ptr: usize) -> (r: bool)
        ensures
            r == self@.pointers.contains_key(ptr),
    {
        pointer_table_get(&self.pointers, ptr).is_some()
    }

    /// The record of sampled pointer `ptr`, if it has one.
    pub fn pointer_record(&self, ptr: usize) -> (r: Option<AllocationRecord>)
        ensures
            match r {
                Some(p) => self@.pointers.contains_key(ptr) && self@.pointers[ptr] == p@,
                None => !self@.pointers.contains_key(ptr),
            },
    {
        pointer_table_get(&self.pointers, ptr)
    }

    /// The totals of stack `trace`, if it was ever recorded.
    pub fn trace_totals(&self, trace: &Vec<u64>) -> (r: Option<Allocations>)
        ensures
            match r {
                Some(a) => self@.traces.contains_key(trace@) && self@.traces[trace@] == a,
                None => !self@.traces.contains_key(trace@),
            },
    {
        trace_table_get(&self.traces, trace)
    }

    /// Every recorded stack with its totals, each once, in no fixed order.
    pub fn entries(&self) -> (r: Vec<(Vec<u64>, Allocations)>)
        ensures
            r@.len() == self@.traces.len(),
            forall|i: int|
                0 <= i < r@.len() ==> self@.traces.contains_key(#[trigger] r@[i].0@)
                    && self@.traces[r@[i].0@] == r@[i].1,
            forall|i: int, j: int|
                0 <= i < j < r@.len() ==> #[trigger] r@[i].0@ != #[trigger] r@[j].0@,
            forall|k: Seq<u64>|
                self@.traces.contains_key(k) ==> exists|i: int|
                    0 <= i < r@.len() && #[trigger] r@[i].0@ == k,
    {
        trace_table_entries(&self.traces)
    }

    /// The number of recorded stacks.
    pub fn trace_count(&self) -> (r: usize)
        ensures
            r == self@.traces.len(),
    {
        let e = trace_table_entries(&self.traces);
        e.len()
    }

    /// Records a sampled allocation of `size` bytes at `ptr` made on stack
    /// `trace`.
    pub fn record_allocation_with_trace(&mut self, ptr: usize, size: usize, trace: Vec<u64>)
        requires
            old(self).wf(),
            alloc_fits(old(self)@, size, trace@),
        ensures
            final(self).wf(),
            final(self)@ == alloc_spec(old(self)@, ptr, size, trace@),
    {
        let key = trace.clone();
        assert(key@ == trace@);
        pointer_table_insert(&mut self.pointers, ptr, AllocationRecord { size, trace });
        let a = match trace_table_get(&self.traces, &key) {
            Some(a) => a,
            None => Allocations { allocated: 0, freed: 0, allocations: 0, frees: 0 },
        };
        let totals = Allocations {
            allocated: a.allocated + size as u64,
            freed: a.freed,
            allocations: a.allocations + 1,
            frees: a.frees,
        };
        trace_table_insert(&mut self.traces, key, totals);
    }

    /// Takes the record of `ptr` out of the pointer table.
    pub fn take_record(&mut self, ptr: usize) -> (r: Option<AllocationRecord>)
        requires
            old(self).wf(),
        ensures
            final(self).wf(),
            final(self)@.pointers == old(self)@.pointers.remove(ptr),
            final(self)@.traces == old(self)@.traces,
            match r {
                Some(p) => old(self)@.pointers.contains_key(ptr) && old(self)@.pointers[ptr] == p@,
                None => !old(self)@.pointers.contains_key(ptr),
            },
    {
        pointer_table_remove(&mut self.pointers, ptr)
    }

    /// Puts `record` back as the record of `ptr`.
    pub fn restore_record(&mut self, ptr: usize, record: AllocationRecord)
        requires
            old(self).wf(),
        ensures
            final(self).wf(),
            final(self)@.pointers == old(self)@.pointers.insert(ptr, record@),
            final(self)@.traces == old(self)@.traces,
    {
        pointer_table_insert(&mut self.pointers, ptr, record);
    }

    /// Records that `size` bytes owned by stack `trace` were freed.
    pub fn record_free(&mut self, trace: Vec<u64>, size: usize)
        requires
            old(self).wf(),
            free_fits(old(self)@, size, trace@),
        ensures
            final(self).wf(),
            final(self)@ == free_spec(old(self)@, size, trace@),
    {
        let a = match trace_table_get(&self.traces, &trace) {
            Some(a) => a,
            None => Allocations { allocated: 0, freed: 0, allocations: 0, frees: 0 },
        };
        let totals = Allocations {
            allocated: a.allocated,
            freed: a.freed + size as u64,
            allocations: a.allocations,
            frees: a.frees + 1,
        };
        trace_table_insert(&mut self.traces, trace, totals);
    }
}

} // verus!
