use pprof_alloc::trace::{
    empty_stack_bounds, frame_chain_makes_progress, return_address_to_call_pc, stack_bounds_from,
    capture_mode, CaptureMode, FrameWalk, StackBounds, SOFT_MAX_DEPTH,
};

#[test]
fn stack_bounds_require_room_for_frame_record() {
    let bounds = StackBounds {
        low: 0x1000,
        max_frame: 0x10f0,
    };

    assert!(bounds.contains_frame(0x1000));
    assert!(bounds.contains_frame(0x10f0));
    assert!(!bounds.contains_frame(0x10f8));
}

#[test]
fn stack_bounds_reject_unaligned_frame_pointers() {
    let bounds = StackBounds {
        low: 0x1000,
        max_frame: 0x10f0,
    };

    assert!(!bounds.contains_frame(0x1001));
}

#[test]
fn stack_bounds_reject_empty_bounds() {
    assert!(!empty_stack_bounds().contains_frame(0x1000));
}

#[test]
fn frame_chain_requires_progress() {
    assert!(frame_chain_makes_progress(0x1000, 0x1010));
    assert!(!frame_chain_makes_progress(0x1000, 0x1000));
    assert!(!frame_chain_makes_progress(0x1000, 0x0ff0));
}

#[test]
fn stack_bounds_reject_frame_above_max_frame() {
    let bounds = StackBounds {
        low: 0x1000,
        max_frame: 0x10f0,
    };

    assert!(!bounds.contains_frame(0x10f8));
}

#[test]
fn stack_bounds_leave_room_for_one_frame_record() {
    assert_eq!(
        stack_bounds_from(0x1000, 0x100),
        StackBounds {
            low: 0x1000,
            max_frame: 0x10f0
        }
    );
    assert_eq!(stack_bounds_from(0, 0x100), empty_stack_bounds());
    assert_eq!(stack_bounds_from(0x1000, 8), empty_stack_bounds());
    assert_eq!(stack_bounds_from(usize::MAX, 2), empty_stack_bounds());
}

#[test]
fn return_addresses_map_to_call_sites() {
    assert_eq!(return_address_to_call_pc(0x1001), Some(0x1000));
    assert_eq!(return_address_to_call_pc(0), None);
}

#[test]
fn frame_walk_stops_without_progress() {
    let bounds = StackBounds {
        low: 0x1000,
        max_frame: 0x10f0,
    };
    let mut walk = FrameWalk::start(bounds, 0x400000, 0x1000);
    assert_eq!(walk.next_frame(), Some(0x1000));
    walk.step(0x401001, 0x1010);
    assert_eq!(walk.next_frame(), Some(0x1010));
    walk.step(0x402001, 0x1008);
    assert_eq!(walk.next_frame(), None);
    assert_eq!(walk.frames, vec![0x400000, 0x401000, 0x402000]);

    let mut zero = FrameWalk::start(bounds, 1, 0x1000);
    zero.step(0, 0x1010);
    assert_eq!(zero.next_frame(), None);
    assert_eq!(zero.frames, vec![1]);

    let mut outside = FrameWalk::start(bounds, 1, 0x2000);
    assert_eq!(outside.next_frame(), None);
    outside.done = false;
    assert!(SOFT_MAX_DEPTH > 1);
}

#[test]
fn frames_print_as_hex_addresses() {
    use_frames_text();
}

fn use_frames_text() {
    let addrs = vec![0x1000u64, 0, 0xabc, u64::MAX];
    let expected = addrs
        .iter()
        .map(|x| format!("{:#x}", x))
        .collect::<Vec<_>>()
        .join(" ");
    assert_eq!(pprof_alloc::trace::frames_text(&addrs), expected);
    assert_eq!(pprof_alloc::trace::frames_text(&Vec::new()), "");
}

#[test]
fn capture_mode_follows_the_build() {
    assert_eq!(capture_mode(true), CaptureMode::FramePointer);
    assert_eq!(capture_mode(false), CaptureMode::Backtrace);
}
