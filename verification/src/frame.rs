//! Double-buffered frame pacing.
//!
//! The engine keeps two in-flight frame slots, each with its own fence
//! (and semaphore pair).  Frame `n` uses slot `n % 2`.  Before the CPU may
//! record into a slot again, it must wait on the fence that the previous
//! occupant of that slot — frame `n - 2` — handed to the driver at
//! submission.  The pacer is that protocol as a state machine: the caller
//! performs the actual fence wait, command-buffer reset, submission and
//! present, in the order the contracts here force.

use vstd::prelude::*;

verus! {

/// How many frames may be in flight at once.
pub const MAX_FRAMES_IN_FLIGHT: usize = 2;

/// The last known state of one slot's fence.
#[derive(Clone, Copy, Debug, PartialEq, Eq, Structural)]
pub enum SlotFence {
    /// The fence is signaled: the slot's previous GPU work is done (or the
    /// slot was never used).  Fences are created signaled.
    Signaled,
    /// Work was submitted with this fence and it has not been waited on.
    Pending,
}

/// The frame-pacing state machine.
///
/// `begin_frame` stands for wait-fence + acquire-image + reset; between
/// `begin_frame` and `end_frame` the caller records the slot's command
/// buffer; `end_frame` stands for submit (signaling the slot's fence) +
/// present, and advances to the next slot.
pub struct FramePacer {
    /// Fence state per slot; length is always `MAX_FRAMES_IN_FLIGHT`.
    pub fences: Vec<SlotFence>,
    /// The slot the next (or current) frame uses; equals `frame_index % 2`.
    pub current_frame: usize,
    /// True between `begin_frame` and `end_frame`.
    pub recording: bool,
    /// Index of the frame being processed; counts completed `end_frame`s.
    pub frame_index: Ghost<nat>,
    /// Per slot: the frame whose submitted GPU work has not been
    /// fence-waited yet, if any.
    pub pending_frame: Ghost<Seq<Option<nat>>>,
}

impl FramePacer {
    pub open spec fn wf(self) -> bool {
        &&& self.fences@.len() == MAX_FRAMES_IN_FLIGHT
        &&& self.pending_frame@.len() == MAX_FRAMES_IN_FLIGHT
        &&& self.current_frame == self.frame_index@ % 2
        &&& forall|s: int|
            0 <= s < MAX_FRAMES_IN_FLIGHT ==> ((#[trigger] self.fences@[s]) == SlotFence::Pending
                <==> self.pending_frame@[s] is Some)
        &&& forall|s: int|
            0 <= s < MAX_FRAMES_IN_FLIGHT && self.pending_frame@[s] is Some ==> {
                let k = (#[trigger] self.pending_frame@[s])->0;
                &&& k % 2 == s
                &&& (s == self.current_frame ==> k + 2 == self.frame_index@)
                &&& (s != self.current_frame ==> k + 1 == self.frame_index@)
            }
        &&& (self.recording ==> self.pending_frame@[self.current_frame as int] is None
            && self.fences@[self.current_frame as int] == SlotFence::Signaled)
    }

    /// Fresh pacer: both fences created signaled, frame zero up next.
    pub fn new() -> (r: FramePacer)
        ensures
            r.wf(),
            !r.recording,
            r.frame_index@ == 0,
            r.current_frame == 0,
    {
        let mut fences: Vec<SlotFence> = Vec::new();
        fences.push(SlotFence::Signaled);
        fences.push(SlotFence::Signaled);
        let ghost pending: Seq<Option<nat>> = seq![None, None];
        FramePacer {
            fences,
            current_frame: 0,
            recording: false,
            frame_index: Ghost(0),
            pending_frame: Ghost(pending),
        }
    }

    /// Enter frame `n` (`n = frame_index`): wait on slot `n % 2`'s fence,
    /// then reset it and the slot's command buffer, making the slot ready
    /// for recording.  The fence being waited on — when one is pending at
    /// all — is exactly the one frame `n - 2` submitted, so recording
    /// never begins over GPU work that may still be running.
    pub fn begin_frame(&mut self) -> (slot: usize)
        requires
            old(self).wf(),
            !old(self).recording,
        ensures
            final(self).wf(),
            final(self).recording,
            slot == old(self).current_frame,
            slot == old(self).frame_index@ % 2,
            final(self).current_frame == old(self).current_frame,
            final(self).frame_index@ == old(self).frame_index@,
            final(self).fences@ == old(self).fences@.update(slot as int, SlotFence::Signaled),
            final(self).pending_frame@ == old(self).pending_frame@.update(
                slot as int,
                Option::<nat>::None,
            ),
            // the wait consumed frame n-2's fence, never a newer one
            old(self).pending_frame@[slot as int] matches Some(k) ==> k + 2 == old(
                self,
            ).frame_index@,
    {
        let slot = self.current_frame;
        self.fences.set(slot, SlotFence::Signaled);
        self.recording = true;
        proof {
            self.pending_frame@ = self.pending_frame@.update(slot as int, None);
        }
        slot
    }

    /// Leave the current frame: submit the recorded command buffer with
    /// the slot's fence, present, and advance to the next slot.  The
    /// advance is unconditional — the driver's submit and present
    /// outcomes are not inputs of this machine, and a frame whose
    /// replay fails is simply dropped by the caller while the pacing
    /// moves on.
    pub fn end_frame(&mut self)
        requires
            old(self).wf(),
            old(self).recording,
        ensures
            final(self).wf(),
            !final(self).recording,
            final(self).frame_index@ == old(self).frame_index@ + 1,
            final(self).current_frame == (old(self).current_frame + 1) % (
            MAX_FRAMES_IN_FLIGHT as int),
            final(self).fences@ == old(self).fences@.update(
                old(self).current_frame as int,
                SlotFence::Pending,
            ),
            final(self).pending_frame@ == old(self).pending_frame@.update(
                old(self).current_frame as int,
                Some(old(self).frame_index@),
            ),
    {
        let slot = self.current_frame;
        self.fences.set(slot, SlotFence::Pending);
        self.recording = false;
        self.current_frame = (self.current_frame + 1) % MAX_FRAMES_IN_FLIGHT;
        proof {
            self.pending_frame@ = self.pending_frame@.update(
                slot as int,
                Some(self.frame_index@),
            );
            self.frame_index@ = self.frame_index@ + 1;
        }
    }
}

/// Frame pacing: at the moment frame `n` may start recording into slot
/// `n % 2`, the only GPU work on that slot whose fence could still be
/// un-waited is frame `n - 2`'s — never a more recent frame's — so the
/// wait `begin_frame` performs is precisely the fence last associated
/// with frame `n - 2`.
pub proof fn lemma_frame_pacing(p: FramePacer)
    requires
        p.wf(),
        !p.recording,
    ensures
        p.pending_frame@[p.current_frame as int] matches Some(k) ==> k + 2 == p.frame_index@,
{
}

} // verus!
