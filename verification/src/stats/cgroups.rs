//! cgroup v2 memory accounting: `memory.stat`, `memory.current`, and the
//! cgroup path in `/proc/self/cgroup`.
use crate::stats::sat_sub;
use crate::stats::{metric_views, Metric, MetricView};
use crate::text::{
    copy_range, lines, lines_of, parse_u64, parse_uint, split_chars, split_on, split_whitespace_chars,
    split_ws, str_chars, string_from_chars, trim, trim_chars, views, chars_eq_str, range_eq_str,
};
use vstd::prelude::*;
use vstd::string::StringExecFns;

verus! {

/// A few interesting values from `memory.stat`, with the usage from `memory.current`.
#[derive(Debug, PartialEq, Eq, Clone, Copy)]
pub struct MemoryStat {
    pub usage: u64,
    pub working_set: u64,
    pub anon: u64,
    pub inactive_anon: u64,
    pub active_anon: u64,
    pub file: u64,
    pub file_mapped: u64,
    pub active_file: u64,
    pub inactive_file: u64,
    pub shmem: u64,
    pub kernel: u64,
    pub kernel_stack: u64,
    pub pagetables: u64,
    pub percpu: u64,
    pub sock: u64,
    pub slab: u64,
    pub slab_reclaimable: u64,
    pub slab_unreclaimable: u64,
    pub pgfault: u64,
    pub pgmajfault: u64,
    pub workingset_refault_anon: u64,
    pub workingset_refault_file: u64,
    pub workingset_activate_anon: u64,
    pub workingset_activate_file: u64,
    pub workingset_restore_anon: u64,
    pub workingset_restore_file: u64,
}

/// The all-zero stat.
pub open spec fn zero_stat() -> MemoryStat {
    MemoryStat {
        usage: 0,
        working_set: 0,
        anon: 0,
        inactive_anon: 0,
        active_anon: 0,
        file: 0,
        file_mapped: 0,
        active_file: 0,
        inactive_file: 0,
        shmem: 0,
        kernel: 0,
        kernel_stack: 0,
        pagetables: 0,
        percpu: 0,
        sock: 0,
        slab: 0,
        slab_reclaimable: 0,
        slab_unreclaimable: 0,
        pgfault: 0,
        pgmajfault: 0,
        workingset_refault_anon: 0,
        workingset_refault_file: 0,
        workingset_activate_anon: 0,
        workingset_activate_file: 0,
        workingset_restore_anon: 0,
        workingset_restore_file: 0,
    }
}

impl Default for MemoryStat {
    fn default() -> (r: Self)
        ensures
            r == zero_stat(),
    {
        MemoryStat {
            usage: 0,
            working_set: 0,
            anon: 0,
            inactive_anon: 0,
            active_anon: 0,
            file: 0,
            file_mapped: 0,
            active_file: 0,
            inactive_file: 0,
            shmem: 0,
            kernel: 0,
            kernel_stack: 0,
            pagetables: 0,
            percpu: 0,
            sock: 0,
            slab: 0,
            slab_reclaimable: 0,
            slab_unreclaimable: 0,
            pgfault: 0,
            pgmajfault: 0,
            workingset_refault_anon: 0,
            workingset_refault_file: 0,
            workingset_activate_anon: 0,
            workingset_activate_file: 0,
            workingset_restore_anon: 0,
            workingset_restore_file: 0,
        }
    }
}

/// What is wrong with a line of `memory.stat`.
#[derive(Debug, PartialEq, Eq, Clone, Copy)]
pub enum StatLineProblem {
    NoKey,
    NoValue,
    InvalidValue,
    TooManyParts,
}

/// A refused line of `memory.stat` and what is wrong with it.
#[derive(Debug, PartialEq, Eq, Clone)]
pub struct MemoryStatError {
    pub problem: StatLineProblem,
    pub line: String,
}

/// The words that name a problem of a refused line.
pub open spec fn problem_text(p: StatLineProblem) -> Seq<char> {
    match p {
        StatLineProblem::NoKey => "no key"@,
        StatLineProblem::NoValue => "no value"@,
        StatLineProblem::InvalidValue => "invalid value"@,
        StatLineProblem::TooManyParts => "too many parts"@,
    }
}

impl MemoryStatError {
    /// The error's text: `Invalid line: '<line>' (<problem>)`.
    pub fn message(&self) -> (r: String)
        ensures
            r@ == "Invalid line: '"@ + self.line@ + "' ("@ + problem_text(self.problem) + ")"@,
    {
        let mut r = String::from_str("Invalid line: '");
        r.append(self.line.as_str());
        r.append("' (");
        match self.problem {
            StatLineProblem::NoKey => r.append("no key"),
            StatLineProblem::NoValue => r.append("no value"),
            StatLineProblem::InvalidValue => r.append("invalid value"),
            StatLineProblem::TooManyParts => r.append("too many parts"),
        }
        r.append(")");
        r
    }
}

/// What one line of `memory.stat` says.
pub ghost enum StatLine {
    /// A key and its value.
    Entry(Seq<char>, u64),
    /// A refused line.
    Refused(StatLineProblem),
}

/// The meaning of one line: its white-space separated words must be a key
/// and a decimal value, nothing less and nothing more.
pub open spec fn stat_line(line: Seq<char>) -> StatLine {
    let words = split_ws(line);
    if words.len() == 0 {
        StatLine::Refused(StatLineProblem::NoKey)
    } else if words.len() == 1 {
        StatLine::Refused(StatLineProblem::NoValue)
    } else if parse_uint(words[1], 10, u64::MAX as int) is None {
        StatLine::Refused(StatLineProblem::InvalidValue)
    } else if words.len() > 2 {
        StatLine::Refused(StatLineProblem::TooManyParts)
    } else {
        StatLine::Entry(words[0], parse_uint(words[1], 10, u64::MAX as int).unwrap() as u64)
    }
}

/// The position of `key` among the keys that are kept, or their number.
pub open spec fn stat_key_index(key: Seq<char>) -> int {
    if key == "anon"@ {
        0
    } else if key == "inactive_anon"@ {
        1
    } else if key == "active_anon"@ {
        2
    } else if key == "file"@ {
        3
    } else if key == "file_mapped"@ {
        4
    } else if key == "active_file"@ {
        5
    } else if key == "inactive_file"@ {
        6
    } else if key == "shmem"@ {
        7
    } else if key == "kernel"@ {
        8
    } else if key == "kernel_stack"@ {
        9
    } else if key == "pagetables"@ {
        10
    } else if key == "percpu"@ {
        11
    } else if key == "sock"@ {
        12
    } else if key == "slab"@ {
        13
    } else if key == "slab_reclaimable"@ {
        14
    } else if key == "slab_unreclaimable"@ {
        15
    } else if key == "pgfault"@ {
        16
    } else if key == "pgmajfault"@ {
        17
    } else if key == "workingset_refault_anon"@ {
        18
    } else if key == "workingset_refault_file"@ {
        19
    } else if key == "workingset_activate_anon"@ {
        20
    } else if key == "workingset_activate_file"@ {
        21
    } else if key == "workingset_restore_anon"@ {
        22
    } else if key == "workingset_restore_file"@ {
        23
    } else {
        24
    }
}

/// `s` with the kept key at position `idx` set to `v`; other positions change nothing.
pub open spec fn set_stat_index(s: MemoryStat, idx: int, v: u64) -> MemoryStat {
    MemoryStat {
        usage: s.usage,
        working_set: s.working_set,
        anon: if idx == 0 { v } else { s.anon },
        inactive_anon: if idx == 1 { v } else { s.inactive_anon },
        active_anon: if idx == 2 { v } else { s.active_anon },
        file: if idx == 3 { v } else { s.file },
        file_mapped: if idx == 4 { v } else { s.file_mapped },
        active_file: if idx == 5 { v } else { s.active_file },
        inactive_file: if idx == 6 { v } else { s.inactive_file },
        shmem: if idx == 7 { v } else { s.shmem },
        kernel: if idx == 8 { v } else { s.kernel },
        kernel_stack: if idx == 9 { v } else { s.kernel_stack },
        pagetables: if idx == 10 { v } else { s.pagetables },
        percpu: if idx == 11 { v } else { s.percpu },
        sock: if idx == 12 { v } else { s.sock },
        slab: if idx == 13 { v } else { s.slab },
        slab_reclaimable: if idx == 14 { v } else { s.slab_reclaimable },
        slab_unreclaimable: if idx == 15 { v } else { s.slab_unreclaimable },
        pgfault: if idx == 16 { v } else { s.pgfault },
        pgmajfault: if idx == 17 { v } else { s.pgmajfault },
        workingset_refault_anon: if idx == 18 { v } else { s.workingset_refault_anon },
        workingset_refault_file: if idx == 19 { v } else { s.workingset_refault_file },
        workingset_activate_anon: if idx == 20 { v } else { s.workingset_activate_anon },
        workingset_activate_file: if idx == 21 { v } else { s.workingset_activate_file },
        workingset_restore_anon: if idx == 22 { v } else { s.workingset_restore_anon },
        workingset_restore_file: if idx == 23 { v } else { s.workingset_restore_file },
    }
}

/// Reading the lines `ls` into `acc`: each key that is kept takes the value of
/// its last line; other keys are ignored; the first refused line refuses all.
pub open spec fn stat_fold(acc: MemoryStat, ls: Seq<Seq<char>>) -> Result<MemoryStat, (StatLineProblem, Seq<char>)>
    decreases ls.len(),
{
    if ls.len() == 0 {
        Ok(acc)
    } else {
        match stat_line(ls[0]) {
            StatLine::Refused(p) => Err((p, ls[0])),
            StatLine::Entry(k, v) => stat_fold(set_stat_index(acc, stat_key_index(k), v), ls.drop_first()),
        }
    }
}

/// Reading one more line after lines that read into `s`: a refused line
/// refuses all, an entry sets what its key names.
proof fn lemma_stat_fold_push(acc: MemoryStat, ls: Seq<Seq<char>>, l: Seq<char>, s: MemoryStat)
    requires
        stat_fold(acc, ls) == Ok::<MemoryStat, (StatLineProblem, Seq<char>)>(s),
    ensures
        stat_fold(acc, ls.push(l)) == match stat_line(l) {
            StatLine::Refused(p) => Err((p, l)),
            StatLine::Entry(k, v) => Ok(set_stat_index(s, stat_key_index(k), v)),
        },
    decreases ls.len(),
{
    if ls.len() == 0 {
        assert(ls.push(l) =~= seq![l]);
        assert(seq![l].drop_first() =~= Seq::<Seq<char>>::empty());
        assert(s == acc);
        match stat_line(l) {
            StatLine::Refused(p) => {},
            StatLine::Entry(k, v) => {
                assert(stat_fold(set_stat_index(acc, stat_key_index(k), v), Seq::<Seq<char>>::empty()) == Ok::<
                    MemoryStat,
                    (StatLineProblem, Seq<char>),
                >(set_stat_index(acc, stat_key_index(k), v)));
            },
        }
    } else {
        assert(ls.push(l)[0] == ls[0]);
        assert(ls.push(l).drop_first() =~= ls.drop_first().push(l));
        match stat_line(ls[0]) {
            StatLine::Refused(p) => {},
            StatLine::Entry(k, v) => {
                lemma_stat_fold_push(set_stat_index(acc, stat_key_index(k), v), ls.drop_first(), l, s);
            },
        }
    }
}

/// Law of `memory.stat` reading: a refused line read after lines that read
/// well refuses the whole text, naming the problem and the line.
pub proof fn law_refused_line_refuses_all(
    acc: MemoryStat,
    ls: Seq<Seq<char>>,
    l: Seq<char>,
    p: StatLineProblem,
    s: MemoryStat,
)
    requires
        stat_fold(acc, ls) == Ok::<MemoryStat, (StatLineProblem, Seq<char>)>(s),
        stat_line(l) == StatLine::Refused(p),
    ensures
        stat_fold(acc, ls.push(l)) == Err::<MemoryStat, (StatLineProblem, Seq<char>)>((p, l)),
{
    lemma_stat_fold_push(acc, ls, l, s);
}

/// The positions of the kept keys: each key's name picks its own place.
proof fn lemma_kept_key_positions()
    ensures
        stat_key_index("anon"@) == 0,
        stat_key_index("inactive_anon"@) == 1,
        stat_key_index("active_anon"@) == 2,
        stat_key_index("file"@) == 3,
        stat_key_index("file_mapped"@) == 4,
        stat_key_index("active_file"@) == 5,
        stat_key_index("inactive_file"@) == 6,
        stat_key_index("shmem"@) == 7,
        stat_key_index("kernel"@) == 8,
        stat_key_index("kernel_stack"@) == 9,
        stat_key_index("pagetables"@) == 10,
        stat_key_index("percpu"@) == 11,
        stat_key_index("sock"@) == 12,
        stat_key_index("slab"@) == 13,
        stat_key_index("slab_reclaimable"@) == 14,
        stat_key_index("slab_unreclaimable"@) == 15,
        stat_key_index("pgfault"@) == 16,
        stat_key_index("pgmajfault"@) == 17,
        stat_key_index("workingset_refault_anon"@) == 18,
        stat_key_index("workingset_refault_file"@) == 19,
        stat_key_index("workingset_activate_anon"@) == 20,
        stat_key_index("workingset_activate_file"@) == 21,
        stat_key_index("workingset_restore_anon"@) == 22,
        stat_key_index("workingset_restore_file"@) == 23,
{
    reveal_strlit("anon");
    reveal_strlit("inactive_anon");
    reveal_strlit("active_anon");
    reveal_strlit("file");
    reveal_strlit("file_mapped");
    reveal_strlit("active_file");
    reveal_strlit("inactive_file");
    reveal_strlit("shmem");
    reveal_strlit("kernel");
    reveal_strlit("kernel_stack");
    reveal_strlit("pagetables");
    reveal_strlit("percpu");
    reveal_strlit("sock");
    reveal_strlit("slab");
    reveal_strlit("slab_reclaimable");
    reveal_strlit("slab_unreclaimable");
    reveal_strlit("pgfault");
    reveal_strlit("pgmajfault");
    reveal_strlit("workingset_refault_anon");
    reveal_strlit("workingset_refault_file");
    reveal_strlit("workingset_activate_anon");
    reveal_strlit("workingset_activate_file");
    reveal_strlit("workingset_restore_anon");
    reveal_strlit("workingset_restore_file");
    assert("anon"@.len() == 4);
    assert("inactive_anon"@.len() == 13);
    assert("active_anon"@.len() == 11);
    assert("file"@.len() == 4);
    assert("file_mapped"@.len() == 11);
    assert("active_file"@.len() == 11);
    assert("inactive_file"@.len() == 13);
    assert("shmem"@.len() == 5);
    assert("kernel"@.len() == 6);
    assert("kernel_stack"@.len() == 12);
    assert("pagetables"@.len() == 10);
    assert("percpu"@.len() == 6);
    assert("sock"@.len() == 4);
    assert("slab"@.len() == 4);
    assert("slab_reclaimable"@.len() == 16);
    assert("slab_unreclaimable"@.len() == 18);
    assert("pgfault"@.len() == 7);
    assert("pgmajfault"@.len() == 10);
    assert("workingset_refault_anon"@.len() == 23);
    assert("workingset_refault_file"@.len() == 23);
    assert("workingset_activate_anon"@.len() == 24);
    assert("workingset_activate_file"@.len() == 24);
    assert("workingset_restore_anon"@.len() == 23);
    assert("workingset_restore_file"@.len() == 23);
    assert("anon"@[0] != "file"@[0]);
    assert("active_anon"@[0] != "file_mapped"@[0]);
    assert("active_anon"@[7] != "active_file"@[7]);
    assert("file_mapped"@[0] != "active_file"@[0]);
    assert("inactive_anon"@[9] != "inactive_file"@[9]);
    assert("kernel"@[0] != "percpu"@[0]);
    assert("anon"@[0] != "sock"@[0]);
    assert("file"@[0] != "sock"@[0]);
    assert("anon"@[0] != "slab"@[0]);
    assert("file"@[0] != "slab"@[0]);
    assert("sock"@[1] != "slab"@[1]);
    assert("pagetables"@[1] != "pgmajfault"@[1]);
    assert("workingset_refault_anon"@[19] != "workingset_refault_file"@[19]);
    assert("workingset_activate_anon"@[20] != "workingset_activate_file"@[20]);
    assert("workingset_refault_anon"@[13] != "workingset_restore_anon"@[13]);
    assert("workingset_refault_file"@[13] != "workingset_restore_anon"@[13]);
    assert("workingset_refault_anon"@[13] != "workingset_restore_file"@[13]);
    assert("workingset_refault_file"@[13] != "workingset_restore_file"@[13]);
    assert("workingset_restore_anon"@[19] != "workingset_restore_file"@[19]);
}

/// Law of `memory.stat` reading: a line `k v` read after lines that read
/// into `s` sets the field named `k` to `v` and keeps every other field,
/// for each kept key; a line with any other key changes nothing. So each
/// kept field holds the value of the last line with its key.
pub proof fn law_stat_line_sets_the_field_it_names(
    acc: MemoryStat,
    ls: Seq<Seq<char>>,
    l: Seq<char>,
    k: Seq<char>,
    v: u64,
    s: MemoryStat,
)
    requires
        stat_fold(acc, ls) == Ok::<MemoryStat, (StatLineProblem, Seq<char>)>(s),
        stat_line(l) == StatLine::Entry(k, v),
    ensures
        k == "anon"@ ==> stat_fold(acc, ls.push(l)) == Ok::<MemoryStat, (StatLineProblem, Seq<char>)>(
            MemoryStat { anon: v, ..s },
        ),
        k == "inactive_anon"@ ==> stat_fold(acc, ls.push(l)) == Ok::<MemoryStat, (StatLineProblem, Seq<char>)>(
            MemoryStat { inactive_anon: v, ..s },
        ),
        k == "active_anon"@ ==> stat_fold(acc, ls.push(l)) == Ok::<MemoryStat, (StatLineProblem, Seq<char>)>(
            MemoryStat { active_anon: v, ..s },
        ),
        k == "file"@ ==> stat_fold(acc, ls.push(l)) == Ok::<MemoryStat, (StatLineProblem, Seq<char>)>(
            MemoryStat { file: v, ..s },
        ),
        k == "file_mapped"@ ==> stat_fold(acc, ls.push(l)) == Ok::<MemoryStat, (StatLineProblem, Seq<char>)>(
            MemoryStat { file_mapped: v, ..s },
        ),
        k == "active_file"@ ==> stat_fold(acc, ls.push(l)) == Ok::<MemoryStat, (StatLineProblem, Seq<char>)>(
            MemoryStat { active_file: v, ..s },
        ),
        k == "inactive_file"@ ==> stat_fold(acc, ls.push(l)) == Ok::<MemoryStat, (StatLineProblem, Seq<char>)>(
            MemoryStat { inactive_file: v, ..s },
        ),
        k == "shmem"@ ==> stat_fold(acc, ls.push(l)) == Ok::<MemoryStat, (StatLineProblem, Seq<char>)>(
            MemoryStat { shmem: v, ..s },
        ),
        k == "kernel"@ ==> stat_fold(acc, ls.push(l)) == Ok::<MemoryStat, (StatLineProblem, Seq<char>)>(
            MemoryStat { kernel: v, ..s },
        ),
        k == "kernel_stack"@ ==> stat_fold(acc, ls.push(l)) == Ok::<MemoryStat, (StatLineProblem, Seq<char>)>(
            MemoryStat { kernel_stack: v, ..s },
        ),
        k == "pagetables"@ ==> stat_fold(acc, ls.push(l)) == Ok::<MemoryStat, (StatLineProblem, Seq<char>)>(
            MemoryStat { pagetables: v, ..s },
        ),
        k == "percpu"@ ==> stat_fold(acc, ls.push(l)) == Ok::<MemoryStat, (StatLineProblem, Seq<char>)>(
            MemoryStat { percpu: v, ..s },
        ),
        k == "sock"@ ==> stat_fold(acc, ls.push(l)) == Ok::<MemoryStat, (StatLineProblem, Seq<char>)>(
            MemoryStat { sock: v, ..s },
        ),
        k == "slab"@ ==> stat_fold(acc, ls.push(l)) == Ok::<MemoryStat, (StatLineProblem, Seq<char>)>(
            MemoryStat { slab: v, ..s },
        ),
        k == "slab_reclaimable"@ ==> stat_fold(acc, ls.push(l)) == Ok::<MemoryStat, (StatLineProblem, Seq<char>)>(
            MemoryStat { slab_reclaimable: v, ..s },
        ),
        k == "slab_unreclaimable"@ ==> stat_fold(acc, ls.push(l)) == Ok::<MemoryStat, (StatLineProblem, Seq<char>)>(
            MemoryStat { slab_unreclaimable: v, ..s },
        ),
        k == "pgfault"@ ==> stat_fold(acc, ls.push(l)) == Ok::<MemoryStat, (StatLineProblem, Seq<char>)>(
            MemoryStat { pgfault: v, ..s },
        ),
        k == "pgmajfault"@ ==> stat_fold(acc, ls.push(l)) == Ok::<MemoryStat, (StatLineProblem, Seq<char>)>(
            MemoryStat { pgmajfault: v, ..s },
        ),
        k == "workingset_refault_anon"@ ==> stat_fold(acc, ls.push(l)) == Ok::<MemoryStat, (StatLineProblem, Seq<char>)>(
            MemoryStat { workingset_refault_anon: v, ..s },
        ),
        k == "workingset_refault_file"@ ==> stat_fold(acc, ls.push(l)) == Ok::<MemoryStat, (StatLineProblem, Seq<char>)>(
            MemoryStat { workingset_refault_file: v, ..s },
        ),
        k == "workingset_activate_anon"@ ==> stat_fold(acc, ls.push(l)) == Ok::<MemoryStat, (StatLineProblem, Seq<char>)>(
            MemoryStat { workingset_activate_anon: v, ..s },
        ),
        k == "workingset_activate_file"@ ==> stat_fold(acc, ls.push(l)) == Ok::<MemoryStat, (StatLineProblem, Seq<char>)>(
            MemoryStat { workingset_activate_file: v, ..s },
        ),
        k == "workingset_restore_anon"@ ==> stat_fold(acc, ls.push(l)) == Ok::<MemoryStat, (StatLineProblem, Seq<char>)>(
            MemoryStat { workingset_restore_anon: v, ..s },
        ),
        k == "workingset_restore_file"@ ==> stat_fold(acc, ls.push(l)) == Ok::<MemoryStat, (StatLineProblem, Seq<char>)>(
            MemoryStat { workingset_restore_file: v, ..s },
        ),
        k != "anon"@ && k != "inactive_anon"@ && k != "active_anon"@ && k != "file"@ && k != "file_mapped"@ && k != "active_file"@ && k != "inactive_file"@ && k != "shmem"@ && k != "kernel"@ && k != "kernel_stack"@ && k != "pagetables"@ && k != "percpu"@ && k != "sock"@ && k != "slab"@ && k != "slab_reclaimable"@ && k != "slab_unreclaimable"@ && k != "pgfault"@ && k != "pgmajfault"@ && k != "workingset_refault_anon"@ && k != "workingset_refault_file"@ && k != "workingset_activate_anon"@ && k != "workingset_activate_file"@ && k != "workingset_restore_anon"@ && k != "workingset_restore_file"@ ==> stat_fold(acc, ls.push(l)) == Ok::<MemoryStat, (StatLineProblem, Seq<char>)>(s),
{
    lemma_stat_fold_push(acc, ls, l, s);
    lemma_kept_key_positions();
}

/// What `memory.stat` text holds, read line by line from the all-zero stat.
pub open spec fn memory_stat_spec(content: Seq<char>) -> Result<MemoryStat, (StatLineProblem, Seq<char>)> {
    stat_fold(zero_stat(), lines(content))
}

/// The position of `key` among the keys that are kept.
pub fn stat_key_position(key: &Vec<char>) -> (r: usize)
    ensures
        r == stat_key_index(key@),
{
    if chars_eq_str(key, "anon") {
        0
    } else if chars_eq_str(key, "inactive_anon") {
        1
    } else if chars_eq_str(key, "active_anon") {
        2
    } else if chars_eq_str(key, "file") {
        3
    } else if chars_eq_str(key, "file_mapped") {
        4
    } else if chars_eq_str(key, "active_file") {
        5
    } else if chars_eq_str(key, "inactive_file") {
        6
    } else if chars_eq_str(key, "shmem") {
        7
    } else if chars_eq_str(key, "kernel") {
        8
    } else if chars_eq_str(key, "kernel_stack") {
        9
    } else if chars_eq_str(key, "pagetables") {
        10
    } else if chars_eq_str(key, "percpu") {
        11
    } else if chars_eq_str(key, "sock") {
        12
    } else if chars_eq_str(key, "slab") {
        13
    } else if chars_eq_str(key, "slab_reclaimable") {
        14
    } else if chars_eq_str(key, "slab_unreclaimable") {
        15
    } else if chars_eq_str(key, "pgfault") {
        16
    } else if chars_eq_str(key, "pgmajfault") {
        17
    } else if chars_eq_str(key, "workingset_refault_anon") {
        18
    } else if chars_eq_str(key, "workingset_refault_file") {
        19
    } else if chars_eq_str(key, "workingset_activate_anon") {
        20
    } else if chars_eq_str(key, "workingset_activate_file") {
        21
    } else if chars_eq_str(key, "workingset_restore_anon") {
        22
    } else if chars_eq_str(key, "workingset_restore_file") {
        23
    } else {
        24
    }
}

impl MemoryStat {
    /// This stat with the kept key at position `idx` set to `v`.
    pub fn with_key_at(self, idx: usize, v: u64) -> (r: MemoryStat)
        ensures
            r == set_stat_index(self, idx as int, v),
    {
        let anon = if idx == 0 {
            v
        } else {
            self.anon
        };
        let inactive_anon = if idx == 1 {
            v
        } else {
            self.inactive_anon
        };
        let active_anon = if idx == 2 {
            v
        } else {
            self.active_anon
        };
        let file = if idx == 3 {
            v
        } else {
            self.file
        };
        let file_mapped = if idx == 4 {
            v
        } else {
            self.file_mapped
        };
        let active_file = if idx == 5 {
            v
        } else {
            self.active_file
        };
        let inactive_file = if idx == 6 {
            v
        } else {
            self.inactive_file
        };
        let shmem = if idx == 7 {
            v
        } else {
            self.shmem
        };
        let kernel = if idx == 8 {
            v
        } else {
            self.kernel
        };
        let kernel_stack = if idx == 9 {
            v
        } else {
            self.kernel_stack
        };
        let pagetables = if idx == 10 {
            v
        } else {
            self.pagetables
        };
        let percpu = if idx == 11 {
            v
        } else {
            self.percpu
        };
        let sock = if idx == 12 {
            v
        } else {
            self.sock
        };
        let slab = if idx == 13 {
            v
        } else {
            self.slab
        };
        let slab_reclaimable = if idx == 14 {
            v
        } else {
            self.slab_reclaimable
        };
        let slab_unreclaimable = if idx == 15 {
            v
        } else {
            self.slab_unreclaimable
        };
        let pgfault = if idx == 16 {
            v
        } else {
            self.pgfault
        };
        let pgmajfault = if idx == 17 {
            v
        } else {
            self.pgmajfault
        };
        let workingset_refault_anon = if idx == 18 {
            v
        } else {
            self.workingset_refault_anon
        };
        let workingset_refault_file = if idx == 19 {
            v
        } else {
            self.workingset_refault_file
        };
        let workingset_activate_anon = if idx == 20 {
            v
        } else {
            self.workingset_activate_anon
        };
        let workingset_activate_file = if idx == 21 {
            v
        } else {
            self.workingset_activate_file
        };
        let workingset_restore_anon = if idx == 22 {
            v
        } else {
            self.workingset_restore_anon
        };
        let workingset_restore_file = if idx == 23 {
            v
        } else {
            self.workingset_restore_file
        };
        MemoryStat {
            usage: self.usage,
            working_set: self.working_set,
            anon,
            inactive_anon,
            active_anon,
            file,
            file_mapped,
            active_file,
            inactive_file,
            shmem,
            kernel,
            kernel_stack,
            pagetables,
            percpu,
            sock,
            slab,
            slab_reclaimable,
            slab_unreclaimable,
            pgfault,
            pgmajfault,
            workingset_refault_anon,
            workingset_refault_file,
            workingset_activate_anon,
            workingset_activate_file,
            workingset_restore_anon,
            workingset_restore_file,
        }
    }

    /// Reads `memory.stat` text: one `key value` pair per line; keys that are
    /// not kept are ignored, and any malformed line refuses the whole text.
    pub fn parse(content: &str) -> (r: Result<MemoryStat, MemoryStatError>)
        ensures
            match r {
                Ok(s) => memory_stat_spec(content@) == Ok::<MemoryStat, (StatLineProblem, Seq<char>)>(s),
                Err(e) => memory_stat_spec(content@) == Err::<MemoryStat, (StatLineProblem, Seq<char>)>((e.problem, e.line@)),
            },
    {
        let chars = str_chars(content);
        let ls = lines_of(&chars);
        let ghost all = views(ls@);
        let mut res = MemoryStat::default();
        let mut i: usize = 0;
        assert(all.skip(0) =~= all);
        while i < ls.len()
            invariant
                i <= ls.len(),
                all == views(ls@),
                all == lines(content@),
                memory_stat_spec(content@) == stat_fold(res, all.skip(i as int)),
            decreases ls.len() - i,
        {
            let line = &ls[i];
            let ghost rest = all.skip(i as int);
            assert(rest[0] == line@);
            assert(rest.drop_first() =~= all.skip(i + 1));
            let words = split_whitespace_chars(line);
            assert(views(words@) == split_ws(line@));
            if words.len() == 0 {
                return Err(MemoryStatError { problem: StatLineProblem::NoKey, line: string_from_chars(line) });
            }
            if words.len() == 1 {
                return Err(MemoryStatError { problem: StatLineProblem::NoValue, line: string_from_chars(line) });
            }
            assert(views(words@)[0] == words@[0]@ && views(words@)[1] == words@[1]@);
            let value = match parse_u64(&words[1]) {
                Some(v) => v,
                None => {
                    return Err(MemoryStatError { problem: StatLineProblem::InvalidValue, line: string_from_chars(line) });
                },
            };
            if words.len() > 2 {
                return Err(MemoryStatError { problem: StatLineProblem::TooManyParts, line: string_from_chars(line) });
            }
            let idx = stat_key_position(&words[0]);
            res = res.with_key_at(idx, value);
            i = i + 1;
        }
        Ok(res)
    }

    /// This stat with its usage set to `usage` and its working set computed
    /// from it: usage minus inactive file pages, floored at zero.
    pub fn with_usage(self, usage: u64) -> (r: MemoryStat)
        ensures
            r == (MemoryStat {
                usage,
                working_set: sat_sub(usage as int, self.inactive_file as int) as u64,
                ..self
            }),
    {
        MemoryStat { usage, working_set: usage.saturating_sub(self.inactive_file), ..self }
    }
}

/// Reads the text of `memory.current`: a decimal number, white space around it ignored.
pub fn parse_memory_current(content: &str) -> (r: Option<u64>)
    ensures
        match r {
            Some(x) => parse_uint(trim(content@), 10, u64::MAX as int) == Some(x as nat),
            None => parse_uint(trim(content@), 10, u64::MAX as int) is None,
        },
{
    let chars = str_chars(content);
    let t = trim_chars(&chars);
    parse_u64(&t)
}

/// Whether `l` is the cgroup v2 line of `/proc/self/cgroup`: it starts with `0::/`.
pub open spec fn is_v2_line(l: Seq<char>) -> bool {
    l.len() >= 4 && l.take(4) == "0::/"@
}

/// The cgroup v2 path named by the first such line of `ls`, from its `/` to
/// the end of the line.
pub open spec fn first_v2_path(ls: Seq<Seq<char>>) -> Option<Seq<char>>
    decreases ls.len(),
{
    if ls.len() == 0 {
        None
    } else if is_v2_line(ls[0]) {
        Some(ls[0].skip(3))
    } else {
        first_v2_path(ls.drop_first())
    }
}

/// The cgroup v2 path that `/proc/self/cgroup` text names.
pub open spec fn cgroup_v2_path_spec(content: Seq<char>) -> Option<Seq<char>> {
    first_v2_path(split_on(content, '\n'))
}

/// The cgroup v2 path that `/proc/self/cgroup` text names, relative to the
/// cgroup file system root.
pub fn cgroup_v2_path(content: &str) -> (r: Option<String>)
    ensures
        match r {
            Some(p) => cgroup_v2_path_spec(content@) == Some(p@),
            None => cgroup_v2_path_spec(content@) is None,
        },
{
    let chars = str_chars(content);
    let ls = split_chars(&chars, '\n');
    let ghost all = views(ls@);
    let mut i: usize = 0;
    assert(all.skip(0) =~= all);
    while i < ls.len()
        invariant
            i <= ls.len(),
            all == views(ls@),
            all == split_on(content@, '\n'),
            cgroup_v2_path_spec(content@) == first_v2_path(all.skip(i as int)),
        decreases ls.len() - i,
    {
        let l = &ls[i];
        let ghost rest = all.skip(i as int);
        assert(rest[0] == l@);
        assert(rest.drop_first() =~= all.skip(i + 1));
        if l.len() >= 4 && range_eq_str(l, 0, 4, "0::/") {
            assert(l@.subrange(0, 4) =~= l@.take(4));
            let p = copy_range(l, 3, l.len());
            assert(p@ =~= l@.skip(3));
            return Some(string_from_chars(&p));
        }
        assert(l.len() >= 4 ==> l@.subrange(0, 4) =~= l@.take(4));
        i = i + 1;
    }
    None
}

/// The path of a file in the process's cgroup: the cgroup file system root,
/// the cgroup path, a `/`, then `file`.
pub fn cgroup_file_path(cgroup: &str, file: &str) -> (r: String)
    ensures
        r@ == "/sys/fs/cgroup"@ + cgroup@ + "/"@ + file@,
{
    let mut r = String::from_str("/sys/fs/cgroup");
    r.append(cgroup);
    r.append("/");
    r.append(file);
    r
}

/// The gauges and counters that the cgroup collector exports for `s`, in order.
pub open spec fn cgroup_metric_spec(s: MemoryStat) -> Seq<MetricView> {
    seq![
        MetricView { name: "cgroup_usage"@, help: "current memory usage"@, value: s.usage, counter: false },
        MetricView { name: "cgroup_working_set"@, help: "current working set"@, value: s.working_set, counter: false },
        MetricView { name: "cgroup_anon"@, help: "current anonymous usage"@, value: s.anon, counter: false },
        MetricView { name: "cgroup_inactive_anon"@, help: "current inactive anonymous usage"@, value: s.inactive_anon, counter: false },
        MetricView { name: "cgroup_active_anon"@, help: "current active anonymous usage"@, value: s.active_anon, counter: false },
        MetricView { name: "cgroup_file"@, help: "current file usage"@, value: s.file, counter: false },
        MetricView { name: "cgroup_file_mapped"@, help: "current mapped file usage"@, value: s.file_mapped, counter: false },
        MetricView { name: "cgroup_active_file"@, help: "current active file usage"@, value: s.active_file, counter: false },
        MetricView { name: "cgroup_inactive_file"@, help: "current inactive file usage"@, value: s.inactive_file, counter: false },
        MetricView { name: "cgroup_shmem"@, help: "current shmem usage"@, value: s.shmem, counter: false },
        MetricView { name: "cgroup_kernel"@, help: "current kernel usage"@, value: s.kernel, counter: false },
        MetricView { name: "cgroup_kernel_stack"@, help: "current kernel stack usage"@, value: s.kernel_stack, counter: false },
        MetricView { name: "cgroup_pagetables"@, help: "current pagetables usage"@, value: s.pagetables, counter: false },
        MetricView { name: "cgroup_percpu"@, help: "current percpu usage"@, value: s.percpu, counter: false },
        MetricView { name: "cgroup_sock"@, help: "current socket memory usage"@, value: s.sock, counter: false },
        MetricView { name: "cgroup_slab"@, help: "current slab usage"@, value: s.slab, counter: false },
        MetricView { name: "cgroup_slab_reclaimable"@, help: "current reclaimable slab usage"@, value: s.slab_reclaimable, counter: false },
        MetricView { name: "cgroup_slab_unreclaimable"@, help: "current unreclaimable slab usage"@, value: s.slab_unreclaimable, counter: false },
        MetricView { name: "cgroup_pgfault_total"@, help: "cgroup page faults"@, value: s.pgfault, counter: true },
        MetricView { name: "cgroup_pgmajfault_total"@, help: "cgroup major page faults"@, value: s.pgmajfault, counter: true },
        MetricView { name: "cgroup_workingset_refault_anon_total"@, help: "anonymous workingset refaults"@, value: s.workingset_refault_anon, counter: true },
        MetricView { name: "cgroup_workingset_refault_file_total"@, help: "file workingset refaults"@, value: s.workingset_refault_file, counter: true },
        MetricView { name: "cgroup_workingset_activate_anon_total"@, help: "anonymous workingset activations"@, value: s.workingset_activate_anon, counter: true },
        MetricView { name: "cgroup_workingset_activate_file_total"@, help: "file workingset activations"@, value: s.workingset_activate_file, counter: true },
        MetricView { name: "cgroup_workingset_restore_anon_total"@, help: "anonymous workingset restores"@, value: s.workingset_restore_anon, counter: true },
        MetricView { name: "cgroup_workingset_restore_file_total"@, help: "file workingset restores"@, value: s.workingset_restore_file, counter: true },
    ]
}

/// The gauges and counters that the cgroup collector exports for `s`, in order.
pub fn cgroup_metrics(s: &MemoryStat) -> (r: Vec<Metric>)
    ensures
        metric_views(r@) == cgroup_metric_spec(*s),
{
    let mut r: Vec<Metric> = Vec::new();
    r.push(Metric::gauge("cgroup_usage", "current memory usage", s.usage));
    r.push(Metric::gauge("cgroup_working_set", "current working set", s.working_set));
    r.push(Metric::gauge("cgroup_anon", "current anonymous usage", s.anon));
    r.push(Metric::gauge("cgroup_inactive_anon", "current inactive anonymous usage", s.inactive_anon));
    r.push(Metric::gauge("cgroup_active_anon", "current active anonymous usage", s.active_anon));
    r.push(Metric::gauge("cgroup_file", "current file usage", s.file));
    r.push(Metric::gauge("cgroup_file_mapped", "current mapped file usage", s.file_mapped));
    r.push(Metric::gauge("cgroup_active_file", "current active file usage", s.active_file));
    r.push(Metric::gauge("cgroup_inactive_file", "current inactive file usage", s.inactive_file));
    r.push(Metric::gauge("cgroup_shmem", "current shmem usage", s.shmem));
    r.push(Metric::gauge("cgroup_kernel", "current kernel usage", s.kernel));
    r.push(Metric::gauge("cgroup_kernel_stack", "current kernel stack usage", s.kernel_stack));
    r.push(Metric::gauge("cgroup_pagetables", "current pagetables usage", s.pagetables));
    r.push(Metric::gauge("cgroup_percpu", "current percpu usage", s.percpu));
    r.push(Metric::gauge("cgroup_sock", "current socket memory usage", s.sock));
    r.push(Metric::gauge("cgroup_slab", "current slab usage", s.slab));
    r.push(Metric::gauge("cgroup_slab_reclaimable", "current reclaimable slab usage", s.slab_reclaimable));
    r.push(Metric::gauge("cgroup_slab_unreclaimable", "current unreclaimable slab usage", s.slab_unreclaimable));
    r.push(Metric::counter("cgroup_pgfault_total", "cgroup page faults", s.pgfault));
    r.push(Metric::counter("cgroup_pgmajfault_total", "cgroup major page faults", s.pgmajfault));
    r.push(Metric::counter("cgroup_workingset_refault_anon_total", "anonymous workingset refaults", s.workingset_refault_anon));
    r.push(Metric::counter("cgroup_workingset_refault_file_total", "file workingset refaults", s.workingset_refault_file));
    r.push(Metric::counter("cgroup_workingset_activate_anon_total", "anonymous workingset activations", s.workingset_activate_anon));
    r.push(Metric::counter("cgroup_workingset_activate_file_total", "file workingset activations", s.workingset_activate_file));
    r.push(Metric::counter("cgroup_workingset_restore_anon_total", "anonymous workingset restores", s.workingset_restore_anon));
    r.push(Metric::counter("cgroup_workingset_restore_file_total", "file workingset restores", s.workingset_restore_file));
    assert(metric_views(r@) =~= cgroup_metric_spec(*s));
    r
}

} // verus!
