//! The messages of the pprof protobuf format (`perftools.profiles`), as
//! plain values. Every string is an index into the profile's string table;
//! ids of mappings, locations and functions start at 1.
use vstd::prelude::*;

verus! {

/// A sample type or period type: what is measured and in which unit.
#[derive(Clone, Copy, Debug, PartialEq, Eq, Structural)]
pub struct ValueType {
    pub ty: i64,
    pub unit: i64,
}

/// A label attached to a sample.
#[derive(Clone, Copy, Debug, PartialEq, Eq, Structural)]
pub struct Label {
    pub key: i64,
    pub str: i64,
    pub num: i64,
    pub num_unit: i64,
}

/// One stack with its values.
#[derive(Clone, Debug)]
pub struct Sample {
    /// Location ids, leaf first.
    pub location_id: Vec<u64>,
    /// One value per sample type.
    pub value: Vec<i64>,
    pub label: Vec<Label>,
}

/// A mapped shared object.
#[derive(Clone, Copy, Debug, PartialEq, Eq, Structural)]
pub struct ProtoMapping {
    pub id: u64,
    pub memory_start: u64,
    pub memory_limit: u64,
    pub file_offset: u64,
    pub filename: i64,
    pub build_id: i64,
    pub has_functions: bool,
    pub has_filenames: bool,
    pub has_line_numbers: bool,
    pub has_inline_frames: bool,
}

/// A source line of a location: the function and its line number.
#[derive(Clone, Copy, Debug, PartialEq, Eq, Structural)]
pub struct Line {
    pub function_id: u64,
    pub line: i64,
}

/// A code address, with the source lines inlined at it (innermost first).
#[derive(Clone, Debug)]
pub struct Location {
    pub id: u64,
    pub mapping_id: u64,
    pub address: u64,
    pub line: Vec<Line>,
    pub is_folded: bool,
}

/// A function: its demangled name, system name and source file.
#[derive(Clone, Copy, Debug, PartialEq, Eq, Structural)]
pub struct Function {
    pub id: u64,
    pub name: i64,
    pub system_name: i64,
    pub filename: i64,
    pub start_line: i64,
}

/// A whole profile.
#[derive(Clone, Debug)]
pub struct Profile {
    pub sample_type: Vec<ValueType>,
    pub sample: Vec<Sample>,
    pub mapping: Vec<ProtoMapping>,
    pub location: Vec<Location>,
    pub function: Vec<Function>,
    pub string_table: Vec<String>,
    pub drop_frames: i64,
    pub keep_frames: i64,
    pub time_nanos: i64,
    pub duration_nanos: i64,
    pub period_type: Option<ValueType>,
    pub period: i64,
    pub comment: Vec<i64>,
    pub default_sample_type: i64,
}

} // verus!
