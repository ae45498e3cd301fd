//! The shared objects of a process as profile mappings: which loaded
//! segments count, and the GNU build ID read from a segment of ELF notes.
use crate::pprof::{BuildId, Mapping};
use vstd::prelude::*;

verus! {

/// Bytes in the header of an ELF note: name size, description size, type.
pub const NOTE_HEADER_SIZE: usize = 12;

/// The type of the note that holds a GNU build ID.
pub const NT_GNU_BUILD_ID: u32 = 3;

/// The segment flag of executable segments.
pub const PF_X: u32 = 1;

/// The little-endian 32-bit word at `i` of `b`.
pub open spec fn le_u32(b: Seq<u8>, i: int) -> int {
    b[i] + 256 * b[i + 1] + 65536 * b[i + 2] + 16777216 * b[i + 3]
}

/// `n` rounded up to a multiple of 4 (note fields are padded to 4 bytes).
pub open spec fn align4(n: int) -> int {
    (n + 3) / 4 * 4
}

/// The name of the notes that GNU tools write: `GNU` and a zero byte.
pub open spec fn gnu_name() -> Seq<u8> {
    seq![71u8, 78u8, 85u8, 0u8]
}

/// The build ID among the notes of `b` from byte `pos` on: the description
/// of the first whole note named `GNU` of the build-ID type; none when the
/// notes end, or a note runs past the end of `b`, first.
pub open spec fn build_id_spec(b: Seq<u8>, pos: int) -> Option<Seq<u8>>
    decreases b.len() - pos,
{
    if pos < 0 || pos + 12 > b.len() {
        None
    } else {
        let namesz = le_u32(b, pos);
        let descsz = le_u32(b, pos + 4);
        let kind = le_u32(b, pos + 8);
        let desc = pos + 12 + align4(namesz);
        let next = desc + align4(descsz);
        if desc + descsz > b.len() {
            None
        } else if kind == 3 && namesz == 4 && b.subrange(pos + 12, pos + 16) == gnu_name() {
            Some(b.subrange(desc, desc + descsz))
        } else if next > b.len() {
            None
        } else {
            build_id_spec(b, next)
        }
    }
}

/// The little-endian 32-bit word at `i` of `b`.
fn read_u32_le(b: &[u8], i: usize) -> (r: u64)
    requires
        i + 4 <= b@.len(),
    ensures
        r == le_u32(b@, i as int),
{
    (b[i] as u64) + 256 * (b[i + 1] as u64) + 65536 * (b[i + 2] as u64) + 16777216 * (b[i + 3] as u64)
}

/// `n` rounded up to a multiple of 4.
fn round_up4(n: u64) -> (r: u64)
    requires
        n <= u32::MAX,
    ensures
        r == align4(n as int),
{
    (n + 3) / 4 * 4
}

/// The bytes `b[from..to]`.
fn copy_bytes(b: &[u8], from: usize, to: usize) -> (r: Vec<u8>)
    requires
        from <= to <= b@.len(),
    ensures
        r@ == b@.subrange(from as int, to as int),
{
    let mut r: Vec<u8> = Vec::new();
    let mut k: usize = from;
    while k < to
        invariant
            from <= k <= to,
            to <= b@.len(),
            r@ == b@.subrange(from as int, k as int),
        decreases to - k,
    {
        r.push(b[k]);
        assert(b@.subrange(from as int, k + 1) =~= b@.subrange(from as int, k as int).push(b@[k as int]));
        k = k + 1;
    }
    r
}

/// The GNU build ID among the ELF notes `notes` (the bytes of a note
/// segment): the description of the first note named `GNU` of the
/// build-ID type.
pub fn gnu_build_id(notes: &[u8]) -> (r: Option<Vec<u8>>)
    ensures
        match r {
            Some(v) => build_id_spec(notes@, 0) == Some(v@),
            None => build_id_spec(notes@, 0) is None,
        },
{
    let len = notes.len();
    let mut pos: usize = 0;
    while pos <= len && len - pos >= NOTE_HEADER_SIZE
        invariant
            len == notes@.len(),
            pos <= len,
            build_id_spec(notes@, 0) == build_id_spec(notes@, pos as int),
        decreases len - pos,
    {
        let namesz = read_u32_le(notes, pos);
        let descsz = read_u32_le(notes, pos + 4);
        let kind = read_u32_le(notes, pos + 8);
        assert(namesz <= u32::MAX && descsz <= u32::MAX);
        let name_room = round_up4(namesz);
        let desc_room = round_up4(descsz);
        if name_room > (len - pos - NOTE_HEADER_SIZE) as u64 {
            return None;
        }
        let desc: usize = pos + NOTE_HEADER_SIZE + name_room as usize;
        if descsz > (len - desc) as u64 {
            return None;
        }
        if kind == 3 && namesz == 4 && notes[pos + 12] == 71 && notes[pos + 13] == 78
            && notes[pos + 14] == 85 && notes[pos + 15] == 0 {
            proof {
                assert(notes@.subrange(pos + 12, pos + 16) =~= gnu_name());
            }
            let id = copy_bytes(notes, desc, desc + descsz as usize);
            return Some(id);
        }
        proof {
            if kind == 3 && namesz == 4 {
                if notes@.subrange(pos + 12, pos + 16) == gnu_name() {
                    assert(notes@.subrange(pos + 12, pos + 16)[0] == notes@[pos + 12]);
                    assert(notes@.subrange(pos + 12, pos + 16)[1] == notes@[pos + 13]);
                    assert(notes@.subrange(pos + 12, pos + 16)[2] == notes@[pos + 14]);
                    assert(notes@.subrange(pos + 12, pos + 16)[3] == notes@[pos + 15]);
                }
            }
        }
        if desc_room > (len - desc) as u64 {
            return None;
        }
        pos = desc + desc_room as usize;
    }
    None
}

/// The mapping of a loaded segment: for an executable segment (`flags`
/// holding [`PF_X`]) at `vaddr` in an object loaded at `base`, the span
/// `[base + vaddr, base + vaddr + memsz)` read from file offset `offset`;
/// none for other segments, or where the span does not fit in `usize`.
pub fn segment_mapping(
    base: u64,
    vaddr: u64,
    memsz: u64,
    offset: u64,
    flags: u32,
    pathname: String,
    build_id: Option<BuildId>,
) -> (r: Option<Mapping>)
    ensures
        match r {
            Some(m) => flags & PF_X != 0 && base + vaddr + memsz <= usize::MAX && m.memory_start == base
                + vaddr && m.memory_end == base + vaddr + memsz && m.file_offset == offset
                && m.pathname@ == pathname@ && m.build_id == build_id,
            None => flags & PF_X == 0 || base + vaddr + memsz > usize::MAX,
        },
{
    if flags & PF_X == 0 {
        return None;
    }
    if vaddr > u64::MAX - base || memsz > u64::MAX - base - vaddr {
        return None;
    }
    let end = base + vaddr + memsz;
    if end > usize::MAX as u64 {
        return None;
    }
    Some(
        Mapping {
            memory_start: (base + vaddr) as usize,
            memory_end: end as usize,
            file_offset: offset,
            pathname,
            build_id,
        },
    )
}

} // verus!
