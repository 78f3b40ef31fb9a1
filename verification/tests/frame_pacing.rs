use flo_engine::frame::{FramePacer, SlotFence, MAX_FRAMES_IN_FLIGHT};

#[test]
fn two_slots_created_signaled() {
    let p = FramePacer::new();
    assert_eq!(MAX_FRAMES_IN_FLIGHT, 2);
    assert_eq!(p.fences.len(), 2);
    assert_eq!(p.fences[0], SlotFence::Signaled);
    assert_eq!(p.fences[1], SlotFence::Signaled);
    assert_eq!(p.current_frame, 0);
    assert!(!p.recording);
}

#[test]
fn frames_alternate_between_the_two_slots() {
    let mut p = FramePacer::new();
    for n in 0..6usize {
        let slot = p.begin_frame();
        assert_eq!(slot, n % 2);
        assert!(p.recording);
        p.end_frame();
        assert!(!p.recording);
    }
}

#[test]
fn submission_leaves_the_slot_fence_pending_until_reentered() {
    let mut p = FramePacer::new();
    let s0 = p.begin_frame();
    p.end_frame();
    // Frame 0's work is in flight on slot 0; its fence is pending.
    assert_eq!(p.fences[s0], SlotFence::Pending);
    let s1 = p.begin_frame();
    assert_ne!(s0, s1);
    // Entering slot 1 does not wait on slot 0's fence.
    assert_eq!(p.fences[s0], SlotFence::Pending);
    p.end_frame();
    // Re-entering slot 0 (frame 2) waits its fence: signaled again.
    let s2 = p.begin_frame();
    assert_eq!(s2, s0);
    assert_eq!(p.fences[s0], SlotFence::Signaled);
    assert_eq!(p.fences[s1], SlotFence::Pending);
}
