//! Stack capture: the decisions of the frame-pointer walk.
//!
//! Reading a frame record is a raw memory load and stays with the caller; the
//! walk itself (which frame is safe to read, which address to record next and
//! when to stop) is decided here.
use crate::text::{str_chars, string_push};
use vstd::prelude::*;

verus! {

/// Most frames recorded for one stack.
pub const SOFT_MAX_DEPTH: usize = 128;

/// Bytes in a machine word.
pub const WORD_SIZE: usize = 8;

/// A frame record is a saved frame pointer followed by a return address.
pub const FRAME_RECORD_SIZE: usize = 16;

/// Which stack capture implementation is compiled in.
#[derive(Clone, Copy, Debug, PartialEq, Eq, Structural)]
pub enum CaptureMode {
    FramePointer,
    Backtrace,
}

/// The capture mode of a build that walks frame pointers when
/// `frame_pointer_walk` holds and unwinds otherwise.
pub open spec fn capture_mode_of(frame_pointer_walk: bool) -> CaptureMode {
    if frame_pointer_walk {
        CaptureMode::FramePointer
    } else {
        CaptureMode::Backtrace
    }
}

/// The stack capture mode of this build: the frame-pointer walk where the
/// build walks frame pointers (`frame_pointer_walk`, a fact of the target),
/// the unwinder fallback elsewhere.
pub fn capture_mode(frame_pointer_walk: bool) -> (r: CaptureMode)
    ensures
        r == capture_mode_of(frame_pointer_walk),
{
    if frame_pointer_walk {
        CaptureMode::FramePointer
    } else {
        CaptureMode::Backtrace
    }
}

/// The span of the current thread's stack in which a frame record may start.
#[derive(Clone, Copy, Debug, PartialEq, Eq, Structural)]
pub struct StackBounds {
    pub low: usize,
    pub max_frame: usize,
}

/// Whether `fp` may be read as a frame record within `b`.
pub open spec fn frame_in_bounds(b: StackBounds, fp: usize) -> bool {
    b.low <= fp <= b.max_frame && fp % WORD_SIZE == 0
}

impl StackBounds {
    /// Whether `fp` is a word-aligned frame pointer with a whole frame record
    /// inside the stack.
    pub fn contains_frame(self, fp: usize) -> (r: bool)
        ensures
            r == frame_in_bounds(self, fp),
    {
        fp >= self.low && fp <= self.max_frame && fp % WORD_SIZE == 0
    }
}

/// Bounds that contain no frame at all.
pub fn empty_stack_bounds() -> (r: StackBounds)
    ensures
        r == (StackBounds { low: 1, max_frame: 0 }),
        forall|fp: usize| !frame_in_bounds(r, fp),
{
    StackBounds { low: 1, max_frame: 0 }
}

/// The bounds of a stack that starts at address `low` and spans `size` bytes,
/// as the thread attributes report them.
pub open spec fn stack_bounds_spec(low: usize, size: usize) -> StackBounds {
    let high = low + size;
    let max_frame = high - FRAME_RECORD_SIZE;
    if high > usize::MAX || max_frame < 0 || low == 0 || max_frame < low {
        StackBounds { low: 1, max_frame: 0 }
    } else {
        StackBounds { low, max_frame: max_frame as usize }
    }
}

/// The bounds of the stack `[low, low + size)`: frames may start from `low`
/// up to the last address that leaves room for a frame record. Empty bounds
/// when the span wraps, is too small, or starts at address zero.
pub fn stack_bounds_from(low: usize, size: usize) -> (r: StackBounds)
    ensures
        r == stack_bounds_spec(low, size),
{
    let high = match low.checked_add(size) {
        Some(h) => h,
        None => return empty_stack_bounds(),
    };
    let max_frame = match high.checked_sub(FRAME_RECORD_SIZE) {
        Some(m) => m,
        None => return empty_stack_bounds(),
    };
    if low == 0 || max_frame < low {
        return empty_stack_bounds();
    }
    StackBounds { low, max_frame }
}

/// The address of the call instruction before the return address `pc`
/// (x86_64: one byte back), or `None` for a zero return address.
pub fn return_address_to_call_pc(pc: u64) -> (r: Option<u64>)
    ensures
        r == (if pc == 0 { None::<u64> } else { Some((pc - 1) as u64) }),
{
    pc.checked_sub(1)
}

/// A walk up the stack only moves towards older frames.
pub fn frame_chain_makes_progress(fp: usize, next_fp: usize) -> (r: bool)
    ensures
        r == (next_fp > fp),
{
    next_fp > fp
}

/// Where a frame-pointer walk stands: the frames recorded so far and the
/// frame pointer to read next.
pub struct FrameWalk {
    pub bounds: StackBounds,
    pub frames: Vec<u64>,
    pub fp: usize,
    pub done: bool,
}

impl FrameWalk {
    /// A walk that starts at program counter `pc` with frame pointer `fp`.
    pub fn start(bounds: StackBounds, pc: u64, fp: usize) -> (r: FrameWalk)
        ensures
            r.bounds == bounds,
            r.frames@ == seq![pc],
            r.fp == fp,
            !r.done,
    {
        let mut frames = Vec::new();
        frames.push(pc);
        FrameWalk { bounds, frames, fp, done: false }
    }

    /// The frame record to read next, if the walk goes on: the walk stops
    /// after `SOFT_MAX_DEPTH` frames or at a frame pointer outside the stack.
    pub fn next_frame(&self) -> (r: Option<usize>)
        ensures
            r == (if !self.done && self.frames.len() < SOFT_MAX_DEPTH && frame_in_bounds(
                self.bounds,
                self.fp,
            ) {
                Some(self.fp)
            } else {
                None::<usize>
            }),
    {
        if !self.done && self.frames.len() < SOFT_MAX_DEPTH && self.bounds.contains_frame(self.fp) {
            Some(self.fp)
        } else {
            None
        }
    }

    /// Takes the frame record read at `self.fp`: its return address and the
    /// saved frame pointer. A zero return address ends the walk; otherwise
    /// the call site is recorded, and the walk goes on only when the saved
    /// frame pointer lies above the current one.
    pub fn step(&mut self, return_address: u64, saved_fp: usize)
        requires
            old(self).frames.len() < SOFT_MAX_DEPTH,
        ensures
            final(self).bounds == old(self).bounds,
            return_address == 0 ==> final(self).frames@ == old(self).frames@ && final(self).done
                && final(self).fp == old(self).fp,
            return_address != 0 ==> final(self).frames@ == old(self).frames@.push(
                (return_address - 1) as u64,
            ),
            return_address != 0 ==> final(self).done == (old(self).done || saved_fp <= old(self).fp),
            return_address != 0 && saved_fp > old(self).fp ==> final(self).fp == saved_fp,
            return_address != 0 && saved_fp <= old(self).fp ==> final(self).fp == old(self).fp,
    {
        let pc = match return_address_to_call_pc(return_address) {
            Some(pc) => pc,
            None => {
                self.done = true;
                return ;
            },
        };
        self.frames.push(pc);
        if !frame_chain_makes_progress(self.fp, saved_fp) {
            self.done = true;
            return ;
        }
        self.fp = saved_fp;
    }
}

/// The lowercase hexadecimal digit for `d` (below 16).
pub open spec fn hex_char_of(d: nat) -> char {
    if d < 10 {
        (48 + d) as char
    } else {
        (87 + d) as char
    }
}

/// The lowercase hexadecimal digits of `n`, without leading zeros (`0` for
/// zero).
pub open spec fn hex_digits(n: nat) -> Seq<char>
    decreases n,
{
    if n < 16 {
        seq![hex_char_of(n)]
    } else {
        hex_digits(n / 16).push(hex_char_of(n % 16))
    }
}

/// The frames of a stack as text: each address as `0x` and its hexadecimal
/// digits, separated by single spaces.
pub open spec fn frames_text_spec(addrs: Seq<u64>) -> Seq<char>
    decreases addrs.len(),
{
    if addrs.len() == 0 {
        Seq::empty()
    } else if addrs.len() == 1 {
        seq!['0', 'x'] + hex_digits(addrs[0] as nat)
    } else {
        frames_text_spec(addrs.drop_last()) + seq![' ', '0', 'x'] + hex_digits(addrs.last() as nat)
    }
}

fn push_hex(out: &mut String, n: u64)
    ensures
        final(out)@ == old(out)@ + hex_digits(n as nat),
    decreases n,
{
    let table = str_chars("0123456789abcdef");
    proof {
        reveal_strlit("0123456789abcdef");
    }
    if n >= 16 {
        push_hex(out, n / 16);
    }
    let d = (n % 16) as usize;
    string_push(out, table[d]);
    assert(table@[d as int] == hex_char_of((n % 16) as nat));
    assert(hex_digits(n as nat) == if n < 16 {
        seq![hex_char_of(n as nat)]
    } else {
        hex_digits((n / 16) as nat).push(hex_char_of((n % 16) as nat))
    });
}

/// The frames of a stack as text, as its debug form shows them: `{:#x}` of
/// each address, separated by spaces.
pub fn frames_text(addrs: &Vec<u64>) -> (r: String)
    ensures
        r@ == frames_text_spec(addrs@),
{
    let mut out = String::new();
    let mut i: usize = 0;
    while i < addrs.len()
        invariant
            i <= addrs.len(),
            out@ == frames_text_spec(addrs@.take(i as int)),
        decreases addrs.len() - i,
    {
        assert(addrs@.take(i + 1).drop_last() =~= addrs@.take(i as int));
        assert(addrs@.take(i + 1).last() == addrs@[i as int]);
        if i > 0 {
            string_push(&mut out, ' ');
        }
        string_push(&mut out, '0');
        string_push(&mut out, 'x');
        push_hex(&mut out, addrs[i]);
        proof {
            if i == 0 {
                assert(out@ =~= seq!['0', 'x'] + hex_digits(addrs@[0] as nat));
            } else {
                assert(out@ =~= frames_text_spec(addrs@.take(i as int)) + seq![' ', '0', 'x']
                    + hex_digits(addrs@[i as int] as nat));
            }
        }
        i = i + 1;
    }
    assert(addrs@.take(i as int) =~= addrs@);
    out
}

} // verus!
