//! The capture loop: which frames of a scrolling region are kept, and when to stop.
//!
//! The loop is a state machine. [`CaptureLoop::next_action`] says what to do next; the frame that
//! comes of it is handed to [`CaptureLoop::on_frame`].

use vstd::prelude::*;
use crate::frame::Frame;
use crate::screencopy::{frame_diff, frame_difference, unchanged, FrameDiff};

verus! {

/// Number of consecutive unchanged frames before capture stops.
pub const STOP_STREAK: usize = 2;

/// Maximum number of frames, regardless of content changes.
pub const MAX_FRAMES: usize = 200;

/// Maximum number of attempts to wait for the first frame to become stable.
pub const STABILIZE_ATTEMPTS: usize = 10;

/// Where the capture loop is.
#[derive(Clone, Copy, Debug, PartialEq, Eq, Structural)]
pub enum CapturePhase {
    /// Nothing has been captured yet.
    First,
    /// The first frame may still be loading; `attempt` probes have differed from it.
    Stabilizing { attempt: usize },
    /// The region is being scrolled; the last `streak` frames showed nothing new.
    Scrolling { streak: usize },
    /// The content has stopped changing.
    Finished,
}

/// What the capture loop wants next.
#[derive(Clone, Copy, Debug, PartialEq, Eq, Structural)]
pub enum CaptureAction {
    /// Capture a frame at once.
    Capture,
    /// Let the content settle, then capture a frame.
    SettleAndCapture,
    /// Scroll down, let the content settle, then capture a frame.
    ScrollAndCapture,
    /// Stop.
    Finish,
}

/// The state of a capture: its phase and the frames that were kept.
pub struct CaptureLoop {
    pub phase: CapturePhase,
    pub frames: Vec<Frame>,
}

/// What to do in a phase after `n` frames were kept.
pub open spec fn action(phase: CapturePhase, n: nat) -> CaptureAction {
    match phase {
        CapturePhase::First => CaptureAction::Capture,
        CapturePhase::Stabilizing { attempt } => CaptureAction::SettleAndCapture,
        CapturePhase::Scrolling { streak } => if n >= MAX_FRAMES {
            CaptureAction::Finish
        } else {
            CaptureAction::ScrollAndCapture
        },
        CapturePhase::Finished => CaptureAction::Finish,
    }
}

/// The phase after a frame. While the first frame is loading, a probe that shows the same ends
/// the wait, and so does the last attempt. While scrolling, a second frame in a row that shows
/// nothing new ends the capture.
pub open spec fn phase_after(phase: CapturePhase, frames: Seq<Frame>, frame: Frame) -> CapturePhase {
    let same = unchanged(frames.last(), frame);
    match phase {
        CapturePhase::First => CapturePhase::Stabilizing { attempt: 0 },
        CapturePhase::Stabilizing { attempt } => if same || attempt + 1 >= STABILIZE_ATTEMPTS {
            CapturePhase::Scrolling { streak: 0 }
        } else {
            CapturePhase::Stabilizing { attempt: (attempt + 1) as usize }
        },
        CapturePhase::Scrolling { streak } => if !same {
            CapturePhase::Scrolling { streak: 0 }
        } else if streak + 1 >= STOP_STREAK {
            CapturePhase::Finished
        } else {
            CapturePhase::Scrolling { streak: (streak + 1) as usize }
        },
        CapturePhase::Finished => CapturePhase::Finished,
    }
}

/// The frames that are kept after a frame. One that shows nothing new is dropped. While the first
/// frame is loading, a newer one takes its place.
pub open spec fn frames_after(phase: CapturePhase, frames: Seq<Frame>, frame: Frame) -> Seq<Frame> {
    match phase {
        CapturePhase::First => frames.push(frame),
        CapturePhase::Stabilizing { attempt } => if unchanged(frames.last(), frame) {
            frames
        } else {
            frames.update(frames.len() - 1, frame)
        },
        CapturePhase::Scrolling { streak } => if unchanged(frames.last(), frame) {
            frames
        } else {
            frames.push(frame)
        },
        CapturePhase::Finished => frames,
    }
}

/// No frame shows the same as the one before.
pub open spec fn each_frame_differs(frames: Seq<Frame>) -> bool {
    forall|i: int| 0 < i < frames.len() ==> !unchanged(#[trigger] frames[i - 1], frames[i])
}

/// What holds of a phase and the frames that were kept.
pub open spec fn capture_invariant(phase: CapturePhase, frames: Seq<Frame>) -> bool {
    &&& each_frame_differs(frames)
    &&& match phase {
        CapturePhase::First => frames.len() == 0,
        CapturePhase::Stabilizing { attempt } => attempt < STABILIZE_ATTEMPTS && frames.len() == 1,
        CapturePhase::Scrolling { streak } => streak < STOP_STREAK && 1 <= frames.len() <= MAX_FRAMES,
        CapturePhase::Finished => 1 <= frames.len() <= MAX_FRAMES,
    }
}

/// An upper bound of how many more frames are captured.
pub open spec fn captures_left(phase: CapturePhase, n: int) -> int {
    match phase {
        CapturePhase::First => STABILIZE_ATTEMPTS + STOP_STREAK * MAX_FRAMES + 1,
        CapturePhase::Stabilizing { attempt } => STABILIZE_ATTEMPTS - attempt + STOP_STREAK
            * MAX_FRAMES,
        CapturePhase::Scrolling { streak } => STOP_STREAK * (MAX_FRAMES - n) + STOP_STREAK - streak,
        CapturePhase::Finished => 0,
    }
}

impl CaptureLoop {
    /// The invariant of the capture loop.
    pub open spec fn valid(&self) -> bool {
        capture_invariant(self.phase, self.frames@)
    }

    /// The start of a capture.
    pub fn new() -> (r: CaptureLoop)
        ensures
            r.phase == CapturePhase::First,
            r.frames@ == Seq::<Frame>::empty(),
            r.valid(),
    {
        CaptureLoop { phase: CapturePhase::First, frames: Vec::new() }
    }

    /// What to do next.
    pub fn next_action(&self) -> (r: CaptureAction)
        ensures
            r == action(self.phase, self.frames@.len()),
    {
        match self.phase {
            CapturePhase::First => CaptureAction::Capture,
            CapturePhase::Stabilizing { .. } => CaptureAction::SettleAndCapture,
            CapturePhase::Scrolling { .. } => if self.frames.len() >= MAX_FRAMES {
                CaptureAction::Finish
            } else {
                CaptureAction::ScrollAndCapture
            },
            CapturePhase::Finished => CaptureAction::Finish,
        }
    }

    /// Takes the frame that was captured. Returns how much it differs from the last one kept.
    pub fn on_frame(&mut self, frame: Frame) -> (r: Option<FrameDiff>)
        requires
            old(self).valid(),
            action(old(self).phase, old(self).frames@.len()) != CaptureAction::Finish,
        ensures
            final(self).valid(),
            final(self).phase == phase_after(old(self).phase, old(self).frames@, frame),
            final(self).frames@ == frames_after(old(self).phase, old(self).frames@, frame),
            r is None <==> old(self).phase == CapturePhase::First,
            r matches Some(d) ==> (d.total as int, d.count as int) == frame_difference(
                old(self).frames@.last(),
                frame,
            ),
            captures_left(final(self).phase, final(self).frames@.len() as int) < captures_left(
                old(self).phase,
                old(self).frames@.len() as int,
            ),
    {
        proof {
            lemma_capture_invariant_is_kept(self.phase, self.frames@, frame);
        }
        let n: usize = self.frames.len();
        match self.phase {
            CapturePhase::First => {
                self.frames.push(frame);
                self.phase = CapturePhase::Stabilizing { attempt: 0 };
                None
            },
            CapturePhase::Stabilizing { attempt } => {
                let diff = frame_diff(&self.frames[n - 1], &frame);
                if diff.is_unchanged() {
                    self.phase = CapturePhase::Scrolling { streak: 0 };
                } else {
                    self.frames[n - 1] = frame;
                    self.phase = if attempt + 1 >= STABILIZE_ATTEMPTS {
                        CapturePhase::Scrolling { streak: 0 }
                    } else {
                        CapturePhase::Stabilizing { attempt: attempt + 1 }
                    };
                }
                Some(diff)
            },
            CapturePhase::Scrolling { streak } => {
                let diff = frame_diff(&self.frames[n - 1], &frame);
                if diff.is_unchanged() {
                    self.phase = if streak + 1 >= STOP_STREAK {
                        CapturePhase::Finished
                    } else {
                        CapturePhase::Scrolling { streak: streak + 1 }
                    };
                } else {
                    self.frames.push(frame);
                    self.phase = CapturePhase::Scrolling { streak: 0 };
                }
                Some(diff)
            },
            CapturePhase::Finished => None,
        }
    }

    /// The frames that were kept.
    pub fn into_frames(self) -> (r: Vec<Frame>)
        ensures
            r@ == self.frames@,
    {
        self.frames
    }
}

/// A frame keeps the invariant of the capture loop.
proof fn lemma_capture_invariant_is_kept(phase: CapturePhase, frames: Seq<Frame>, frame: Frame)
    requires
        capture_invariant(phase, frames),
        action(phase, frames.len()) != CaptureAction::Finish,
    ensures
        capture_invariant(phase_after(phase, frames, frame), frames_after(phase, frames, frame)),
{
    let after = frames_after(phase, frames, frame);
    assert forall|i: int| 0 < i < after.len() implies !unchanged(#[trigger] after[i - 1], after[i]) by {
        if i < frames.len() {
            assert(after[i - 1] == frames[i - 1]);
        }
    }
}

/// The phase and the frames kept after frames were captured one after another. Frames that come
/// after the end are ignored.
pub open spec fn capture_run(captured: Seq<Frame>) -> (CapturePhase, Seq<Frame>)
    decreases captured.len(),
{
    if captured.len() == 0 {
        (CapturePhase::First, Seq::empty())
    } else {
        let (phase, frames) = capture_run(captured.drop_last());
        let frame = captured.last();
        if action(phase, frames.len()) == CaptureAction::Finish {
            (phase, frames)
        } else {
            (phase_after(phase, frames, frame), frames_after(phase, frames, frame))
        }
    }
}

/// Whatever is captured, the invariant holds: no frame shows the same as the one before it, and
/// there are never more than [`MAX_FRAMES`].
pub proof fn law_capture_invariant_holds(captured: Seq<Frame>)
    ensures
        ({
            let (phase, frames) = capture_run(captured);
            &&& capture_invariant(phase, frames)
            &&& each_frame_differs(frames)
            &&& frames.len() <= MAX_FRAMES
            &&& captured.len() > 0 ==> frames.len() > 0
        }),
    decreases captured.len(),
{
    if captured.len() > 0 {
        law_capture_invariant_holds(captured.drop_last());
        let (phase, frames) = capture_run(captured.drop_last());
        if action(phase, frames.len()) != CaptureAction::Finish {
            lemma_capture_invariant_is_kept(phase, frames, captured.last());
        }
    }
}

/// The bound on the number of captures holds at each point of a run.
proof fn lemma_captures_left(captured: Seq<Frame>)
    ensures
        ({
            let (phase, frames) = capture_run(captured);
            action(phase, frames.len()) == CaptureAction::Finish || captures_left(
                phase,
                frames.len() as int,
            ) + captured.len() <= captures_left(CapturePhase::First, 0)
        }),
    decreases captured.len(),
{
    if captured.len() > 0 {
        lemma_captures_left(captured.drop_last());
        law_capture_invariant_holds(captured.drop_last());
    }
}

/// Every capture comes to an end: after the first frame, ten attempts to find it stable and two
/// frames for each that can be kept, the loop has stopped.
pub proof fn law_capture_ends(captured: Seq<Frame>)
    requires
        captured.len() >= 1 + STABILIZE_ATTEMPTS + STOP_STREAK * MAX_FRAMES,
    ensures
        action(capture_run(captured).0, capture_run(captured).1.len()) == CaptureAction::Finish,
{
    lemma_captures_left(captured);
    law_capture_invariant_holds(captured);
}

/// Capture stops when the content stops changing: two frames in a row that show the same as the
/// last one kept end it, and neither of them is kept.
pub proof fn law_capture_stops_when_nothing_changes(
    streak: usize,
    frames: Seq<Frame>,
    first: Frame,
    second: Frame,
)
    requires
        capture_invariant(CapturePhase::Scrolling { streak }, frames),
        unchanged(frames.last(), first),
        unchanged(frames.last(), second),
    ensures
        ({
            let phase = CapturePhase::Scrolling { streak };
            let next = phase_after(phase, frames, first);
            &&& frames_after(phase, frames, first) == frames
            &&& next == CapturePhase::Finished || phase_after(next, frames, second)
                == CapturePhase::Finished
            &&& frames_after(next, frames, second) == frames
        }),
{
}

/// Content that keeps changing is captured up to the limit: from the first scroll on, each frame
/// that shows something new is kept, and the loop goes on until [`MAX_FRAMES`] are.
pub proof fn law_changing_content_is_kept(streak: usize, frames: Seq<Frame>, frame: Frame)
    requires
        capture_invariant(CapturePhase::Scrolling { streak }, frames),
        frames.len() < MAX_FRAMES,
        !unchanged(frames.last(), frame),
    ensures
        ({
            let phase = CapturePhase::Scrolling { streak };
            let after = frames_after(phase, frames, frame);
            &&& after == frames.push(frame)
            &&& action(phase_after(phase, frames, frame), after.len()) == CaptureAction::Finish
                <==> after.len() == MAX_FRAMES
        }),
{
}

} // verus!
