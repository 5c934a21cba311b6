//! The state of a screen copy: which globals of the compositor are bound, and how far the copy of
//! the current frame has come.

use vstd::prelude::*;
use crate::screencopy::FORMAT_XRGB8888;
use crate::Rect;

verus! {

/// What the compositor has said about the frame that is being copied.
#[derive(Clone, Copy, Debug, PartialEq, Eq, Structural)]
pub struct FrameInfo {
    pub format: u32,
    pub width: u32,
    pub height: u32,
    pub stride: u32,
    pub ready: bool,
    pub failed: bool,
}

impl FrameInfo {
    /// What is known before the compositor has said anything.
    pub open spec fn nothing() -> FrameInfo {
        FrameInfo { format: 0, width: 0, height: 0, stride: 0, ready: false, failed: false }
    }
}

impl Default for FrameInfo {
    fn default() -> (r: FrameInfo)
        ensures
            r == FrameInfo::nothing(),
    {
        FrameInfo { format: 0, width: 0, height: 0, stride: 0, ready: false, failed: false }
    }
}

/// The globals that a capture uses.
#[derive(Clone, Copy, Debug, PartialEq, Eq, Structural)]
pub enum CaptureGlobal {
    Shm,
    Output,
    Seat,
    ScreencopyManager,
    VirtualPointerManager,
}

/// Why a capture failed.
#[derive(Clone, Copy, Debug, PartialEq, Eq, Structural)]
pub enum CaptureError {
    /// The compositor has no `zwlr_screencopy_manager_v1`.
    NoScreencopyManager,
    /// The compositor has no `zwlr_virtual_pointer_manager_v1`.
    NoVirtualPointerManager,
    /// There is no `wl_output` to capture.
    NoOutput,
    /// The compositor could not copy the frame.
    FrameFailed,
    /// The frame is ready, but no buffer was made for it.
    NoBuffer,
}

/// What to do about a buffer that the compositor has described.
#[derive(Clone, Copy, Debug, PartialEq, Eq, Structural)]
pub enum BufferAction {
    /// Nothing.
    Ignore,
    /// Make a buffer of `size` bytes and have the frame copied into it.
    Create { size: u64 },
}

/// A request to the virtual pointer.
#[derive(Clone, Copy, Debug, PartialEq, Eq, Structural)]
pub enum PointerRequest {
    /// Move to a point of an output of the given size.
    MotionAbsolute { time: u32, x: u32, y: u32, x_extent: u32, y_extent: u32 },
    /// What follows comes from a wheel.
    AxisSourceWheel,
    /// Turn the wheel down by some steps.
    AxisDiscrete { time: u32, steps: i32 },
    /// What came before belongs together.
    Frame,
}

/// The state of a screen copy.
#[derive(Clone, Copy, Debug, PartialEq, Eq, Structural)]
pub struct CaptureState {
    pub has_shm: bool,
    pub has_output: bool,
    pub has_screencopy_manager: bool,
    pub has_vp_manager: bool,
    pub has_seat: bool,
    /// Counts the captures. Events of earlier ones are ignored.
    pub current_frame_id: u32,
    pub frame_info: FrameInfo,
    /// A buffer was made for the current frame.
    pub has_buffer: bool,
    /// The size of the output, which pointer positions refer to.
    pub output_w: u32,
    pub output_h: u32,
    /// The registry name of the output to capture, or 0 for the first one.
    pub output_global_name: u32,
}

/// Which global an interface is, and the newest version of it that is used.
pub open spec fn capture_interface(interface: Seq<char>) -> Option<(CaptureGlobal, u32)> {
    if interface == "wl_shm"@ {
        Some((CaptureGlobal::Shm, 1u32))
    } else if interface == "wl_output"@ {
        Some((CaptureGlobal::Output, 3u32))
    } else if interface == "wl_seat"@ {
        Some((CaptureGlobal::Seat, 7u32))
    } else if interface == "zwlr_screencopy_manager_v1"@ {
        Some((CaptureGlobal::ScreencopyManager, 3u32))
    } else if interface == "zwlr_virtual_pointer_manager_v1"@ {
        Some((CaptureGlobal::VirtualPointerManager, 2u32))
    } else {
        None
    }
}

/// The centre of an extent, measured from its start. Extents are signed where the protocol takes
/// them, so that the largest are negative.
pub open spec fn half_extent(extent: u32) -> int {
    if extent <= i32::MAX {
        extent as int / 2
    } else {
        -((0x1_0000_0000 - extent) / 2)
    }
}

/// A coordinate as an unsigned 32-bit number.
pub open spec fn unsigned_coordinate(v: int) -> int {
    v % 0x1_0000_0000
}

/// The requests that turn the wheel by one step.
pub open spec fn scroll_tick(time: int) -> Seq<PointerRequest> {
    seq![
        PointerRequest::AxisSourceWheel,
        PointerRequest::AxisDiscrete { time: time as u32, steps: 1 },
        PointerRequest::Frame,
    ]
}

/// The requests that turn the wheel by `n` steps, a millisecond apart.
pub open spec fn scroll_ticks(time: u32, n: int) -> Seq<PointerRequest>
    decreases n,
{
    if n <= 0 {
        Seq::empty()
    } else {
        scroll_ticks(time, n - 1) + scroll_tick(time + n - 1)
    }
}

impl CaptureState {
    /// The binding that a global gets, and its version. The only output that is bound is the
    /// wanted one, or, if none is, the first.
    pub open spec fn binding(
        &self,
        name: u32,
        interface: Seq<char>,
        version: u32,
    ) -> Option<(CaptureGlobal, u32)> {
        match capture_interface(interface) {
            Some((global, newest)) => if global == CaptureGlobal::Output && (self.has_output || !(
            self.output_global_name == 0 || name == self.output_global_name)) {
                None
            } else {
                Some((global, if version <= newest {
                    version
                } else {
                    newest
                }))
            },
            None => None,
        }
    }

    /// The state after a global was bound.
    pub open spec fn with_global(self, global: CaptureGlobal) -> CaptureState {
        match global {
            CaptureGlobal::Shm => CaptureState { has_shm: true, ..self },
            CaptureGlobal::Output => CaptureState { has_output: true, ..self },
            CaptureGlobal::Seat => CaptureState { has_seat: true, ..self },
            CaptureGlobal::ScreencopyManager => CaptureState { has_screencopy_manager: true, ..self },
            CaptureGlobal::VirtualPointerManager => CaptureState { has_vp_manager: true, ..self },
        }
    }

    /// The state after the copy of a new frame has begun.
    pub open spec fn begun(self) -> CaptureState {
        CaptureState {
            current_frame_id: ((self.current_frame_id + 1) % 0x1_0000_0000) as u32,
            frame_info: FrameInfo::nothing(),
            has_buffer: false,
            ..self
        }
    }

    /// The state after the buffer of a frame was described, and what to do about it. Only the
    /// first description of the current frame counts. Without shared memory the frame fails.
    pub open spec fn described(
        self,
        frame_id: u32,
        format: Option<u32>,
        width: u32,
        height: u32,
        stride: u32,
    ) -> (CaptureState, BufferAction) {
        if frame_id != self.current_frame_id || self.has_buffer {
            (self, BufferAction::Ignore)
        } else {
            let info = FrameInfo {
                format: match format {
                    Some(f) => f,
                    None => FORMAT_XRGB8888,
                },
                width,
                height,
                stride,
                failed: self.frame_info.failed || !self.has_shm,
                ..self.frame_info
            };
            (
                CaptureState { frame_info: info, ..self },
                if self.has_shm {
                    BufferAction::Create { size: (stride * height) as u64 }
                } else {
                    BufferAction::Ignore
                },
            )
        }
    }

    /// The state after a frame was copied. Events of other frames are ignored.
    pub open spec fn copied(self, frame_id: u32) -> CaptureState {
        if frame_id == self.current_frame_id {
            CaptureState { frame_info: FrameInfo { ready: true, ..self.frame_info }, ..self }
        } else {
            self
        }
    }

    /// The state after a frame has failed. Events of other frames are ignored.
    pub open spec fn failed(self, frame_id: u32) -> CaptureState {
        if frame_id == self.current_frame_id {
            CaptureState { frame_info: FrameInfo { failed: true, ..self.frame_info }, ..self }
        } else {
            self
        }
    }

    /// Nothing is known yet but which output is wanted.
    pub open spec fn is_fresh(&self, output: u32) -> bool {
        &&& !self.has_shm && !self.has_output && !self.has_screencopy_manager && !self.has_vp_manager
        &&& !self.has_seat && !self.has_buffer
        &&& self.current_frame_id == 0
        &&& self.frame_info == FrameInfo::nothing()
        &&& self.output_w == 0 && self.output_h == 0
        &&& self.output_global_name == output
    }

    /// The state after a buffer was made for the current frame.
    pub open spec fn with_buffer(self) -> CaptureState {
        CaptureState { has_buffer: true, ..self }
    }

    /// The state after no buffer could be made for the current frame.
    pub open spec fn without_buffer(self) -> CaptureState {
        CaptureState { frame_info: FrameInfo { failed: true, ..self.frame_info }, ..self }
    }

    /// The state after the output has announced a mode.
    pub open spec fn with_mode(self, width: i32, height: i32) -> CaptureState {
        if width > 0 && height > 0 {
            CaptureState { output_w: width as u32, output_h: height as u32, ..self }
        } else {
            self
        }
    }

    /// Whether the compositor has what a capture needs.
    pub open spec fn usable(&self) -> Result<(), CaptureError> {
        if !self.has_screencopy_manager {
            Err(CaptureError::NoScreencopyManager)
        } else if !self.has_vp_manager {
            Err(CaptureError::NoVirtualPointerManager)
        } else {
            Ok(())
        }
    }

    /// The number that a new frame gets, if one can be copied.
    pub open spec fn next_frame(&self) -> Result<u32, CaptureError> {
        if !self.has_screencopy_manager {
            Err(CaptureError::NoScreencopyManager)
        } else if !self.has_output {
            Err(CaptureError::NoOutput)
        } else {
            Ok(self.begun().current_frame_id)
        }
    }

    /// What is known of the current frame, if it can be read.
    pub open spec fn readable(&self) -> Result<FrameInfo, CaptureError> {
        if self.frame_info.failed {
            Err(CaptureError::FrameFailed)
        } else if !self.has_buffer {
            Err(CaptureError::NoBuffer)
        } else {
            Ok(self.frame_info)
        }
    }

    /// The current frame has been copied or has failed.
    pub open spec fn settled(&self) -> bool {
        self.frame_info.ready || self.frame_info.failed
    }

    /// The requests that scroll down inside a region.
    pub open spec fn scrolling(&self, region: Rect, time: u32, ticks: int) -> Seq<PointerRequest> {
        seq![
            PointerRequest::MotionAbsolute {
                time,
                x: unsigned_coordinate(region.x + half_extent(region.width)) as u32,
                y: unsigned_coordinate(region.y + half_extent(region.height)) as u32,
                x_extent: self.output_w,
                y_extent: self.output_h,
            },
            PointerRequest::Frame,
        ] + scroll_ticks(time, ticks)
    }

    /// The state before anything is known.
    pub fn new(output_global_name: u32) -> (r: CaptureState)
        ensures
            r.is_fresh(output_global_name),
            !r.has_shm && !r.has_output && !r.has_screencopy_manager && !r.has_vp_manager
                && !r.has_seat && !r.has_buffer,
            r.current_frame_id == 0,
            r.frame_info == FrameInfo::nothing(),
            r.output_w == 0 && r.output_h == 0,
            r.output_global_name == output_global_name,
    {
        CaptureState {
            has_shm: false,
            has_output: false,
            has_screencopy_manager: false,
            has_vp_manager: false,
            has_seat: false,
            current_frame_id: 0,
            frame_info: FrameInfo::default(),
            has_buffer: false,
            output_w: 0,
            output_h: 0,
            output_global_name,
        }
    }

    /// The registry announces a global. Returns what to bind it as, and in which version.
    pub fn on_global(&mut self, name: u32, interface: &String, version: u32) -> (r: Option<
        (CaptureGlobal, u32),
    >)
        ensures
            r == old(self).binding(name, interface@, version),
            match r {
                Some((global, _)) => *final(self) == old(self).with_global(global),
                None => *final(self) == *old(self),
            },
    {
        let (global, newest): (CaptureGlobal, u32) = if *interface == "wl_shm".to_owned() {
            (CaptureGlobal::Shm, 1)
        } else if *interface == "wl_output".to_owned() {
            (CaptureGlobal::Output, 3)
        } else if *interface == "wl_seat".to_owned() {
            (CaptureGlobal::Seat, 7)
        } else if *interface == "zwlr_screencopy_manager_v1".to_owned() {
            (CaptureGlobal::ScreencopyManager, 3)
        } else if *interface == "zwlr_virtual_pointer_manager_v1".to_owned() {
            (CaptureGlobal::VirtualPointerManager, 2)
        } else {
            return None;
        };
        match global {
            CaptureGlobal::Shm => {
                self.has_shm = true;
            },
            CaptureGlobal::Output => {
                if self.has_output || !(self.output_global_name == 0 || name
                    == self.output_global_name) {
                    return None;
                }
                self.has_output = true;
            },
            CaptureGlobal::Seat => {
                self.has_seat = true;
            },
            CaptureGlobal::ScreencopyManager => {
                self.has_screencopy_manager = true;
            },
            CaptureGlobal::VirtualPointerManager => {
                self.has_vp_manager = true;
            },
        }
        Some((global, if version <= newest {
            version
        } else {
            newest
        }))
    }

    /// The output announces a mode. One without an area is ignored.
    pub fn on_output_mode(&mut self, width: i32, height: i32)
        ensures
            *final(self) == old(self).with_mode(width, height),
            *final(self) == if width > 0 && height > 0 {
                CaptureState { output_w: width as u32, output_h: height as u32, ..*old(self) }
            } else {
                *old(self)
            },
    {
        if width > 0 && height > 0 {
            self.output_w = width as u32;
            self.output_h = height as u32;
        }
    }

    /// The compositor has what a capture needs.
    pub fn check_protocols(&self) -> (r: Result<(), CaptureError>)
        ensures
            r == self.usable(),
            r == if !self.has_screencopy_manager {
                Err(CaptureError::NoScreencopyManager)
            } else if !self.has_vp_manager {
                Err(CaptureError::NoVirtualPointerManager)
            } else {
                Ok::<(), CaptureError>(())
            },
    {
        if !self.has_screencopy_manager {
            Err(CaptureError::NoScreencopyManager)
        } else if !self.has_vp_manager {
            Err(CaptureError::NoVirtualPointerManager)
        } else {
            Ok(())
        }
    }

    /// A new frame is about to be copied. Returns its number, which is the previous one plus one.
    pub fn begin_frame(&mut self) -> (r: Result<u32, CaptureError>)
        ensures
            r == old(self).next_frame(),
            match r {
                Err(e) => *final(self) == *old(self) && if !old(self).has_screencopy_manager {
                    e == CaptureError::NoScreencopyManager
                } else {
                    !old(self).has_output && e == CaptureError::NoOutput
                },
                Ok(id) => old(self).has_screencopy_manager && old(self).has_output && *final(self)
                    == old(self).begun() && id == final(self).current_frame_id,
            },
    {
        if !self.has_screencopy_manager {
            return Err(CaptureError::NoScreencopyManager);
        }
        if !self.has_output {
            return Err(CaptureError::NoOutput);
        }
        self.current_frame_id = self.current_frame_id.wrapping_add(1);
        self.frame_info = FrameInfo::default();
        self.has_buffer = false;
        Ok(self.current_frame_id)
    }

    /// The compositor describes the buffer that a frame needs; `format` is `None` where it is not
    /// known.
    pub fn on_buffer(
        &mut self,
        frame_id: u32,
        format: Option<u32>,
        width: u32,
        height: u32,
        stride: u32,
    ) -> (r: BufferAction)
        ensures
            (*final(self), r) == old(self).described(frame_id, format, width, height, stride),
            r matches BufferAction::Create { size } ==> size == stride * height,
    {
        if frame_id != self.current_frame_id || self.has_buffer {
            return BufferAction::Ignore;
        }
        self.frame_info.format = match format {
            Some(f) => f,
            None => FORMAT_XRGB8888,
        };
        self.frame_info.width = width;
        self.frame_info.height = height;
        self.frame_info.stride = stride;
        if !self.has_shm {
            self.frame_info.failed = true;
            return BufferAction::Ignore;
        }
        assert(0 <= stride * height <= u32::MAX * u32::MAX) by (nonlinear_arith)
            requires
                0 <= stride <= u32::MAX,
                0 <= height <= u32::MAX,
        ;
        BufferAction::Create { size: stride as u64 * height as u64 }
    }

    /// The buffer of the current frame was made.
    pub fn on_buffer_created(&mut self)
        ensures
            *final(self) == old(self).with_buffer(),
            *final(self) == (CaptureState { has_buffer: true, ..*old(self) }),
    {
        self.has_buffer = true;
    }

    /// The buffer of the current frame could not be made.
    pub fn on_buffer_error(&mut self)
        ensures
            *final(self) == old(self).without_buffer(),
            *final(self) == (CaptureState {
                frame_info: FrameInfo { failed: true, ..old(self).frame_info },
                ..*old(self)
            }),
    {
        self.frame_info.failed = true;
    }

    /// A frame was copied.
    pub fn on_ready(&mut self, frame_id: u32)
        ensures
            *final(self) == old(self).copied(frame_id),
    {
        if frame_id == self.current_frame_id {
            self.frame_info.ready = true;
        }
    }

    /// A frame could not be copied.
    pub fn on_failed(&mut self, frame_id: u32)
        ensures
            *final(self) == old(self).failed(frame_id),
    {
        if frame_id == self.current_frame_id {
            self.frame_info.failed = true;
        }
    }

    /// The current frame has been copied or has failed.
    pub fn frame_settled(&self) -> (r: bool)
        ensures
            r == self.settled(),
            r == (self.frame_info.ready || self.frame_info.failed),
    {
        self.frame_info.ready || self.frame_info.failed
    }

    /// The current frame, once it has settled, can be read.
    pub fn check_frame(&self) -> (r: Result<FrameInfo, CaptureError>)
        ensures
            r == self.readable(),
            r == if self.frame_info.failed {
                Err(CaptureError::FrameFailed)
            } else if !self.has_buffer {
                Err(CaptureError::NoBuffer)
            } else {
                Ok::<FrameInfo, CaptureError>(self.frame_info)
            },
    {
        if self.frame_info.failed {
            Err(CaptureError::FrameFailed)
        } else if !self.has_buffer {
            Err(CaptureError::NoBuffer)
        } else {
            Ok(self.frame_info)
        }
    }

    /// The requests that scroll down inside `region`: the pointer goes to its centre, then the
    /// wheel turns by `ticks` steps.
    pub fn scroll_requests(&self, region: Rect, time: u32, ticks: i32) -> (r: Result<
        Vec<PointerRequest>,
        CaptureError,
    >)
        requires
            ticks > 0 ==> time + ticks - 1 <= u32::MAX,
        ensures
            r matches Ok(requests) ==> requests@ == self.scrolling(region, time, ticks as int),
            match r {
                Err(e) => !self.has_vp_manager && e == CaptureError::NoVirtualPointerManager,
                Ok(requests) => self.has_vp_manager && requests@ == seq![
                    PointerRequest::MotionAbsolute {
                        time,
                        x: unsigned_coordinate(region.x + half_extent(region.width)) as u32,
                        y: unsigned_coordinate(region.y + half_extent(region.height)) as u32,
                        x_extent: self.output_w,
                        y_extent: self.output_h,
                    },
                    PointerRequest::Frame,
                ] + scroll_ticks(time, ticks as int),
            },
    {
        if !self.has_vp_manager {
            return Err(CaptureError::NoVirtualPointerManager);
        }
        let mut requests: Vec<PointerRequest> = Vec::new();
        requests.push(
            PointerRequest::MotionAbsolute {
                time,
                x: centre(region.x, region.width),
                y: centre(region.y, region.height),
                x_extent: self.output_w,
                y_extent: self.output_h,
            },
        );
        requests.push(PointerRequest::Frame);
        let ghost head = requests@;
        let mut i: i32 = 0;
        while i < ticks
            invariant
                0 <= i,
                ticks > 0 ==> i <= ticks && time + ticks - 1 <= u32::MAX,
                ticks <= 0 ==> i == 0,
                requests@ == head + scroll_ticks(time, i as int),
            decreases ticks - i,
        {
            requests.push(PointerRequest::AxisSourceWheel);
            requests.push(PointerRequest::AxisDiscrete { time: time + i as u32, steps: 1 });
            requests.push(PointerRequest::Frame);
            i = i + 1;
            assert(requests@ =~= head + scroll_ticks(time, i as int));
        }
        Ok(requests)
    }
}

/// The centre of an extent that starts at `start`.
fn centre(start: i32, extent: u32) -> (r: u32)
    ensures
        r == unsigned_coordinate(start + half_extent(extent)),
{
    let half: i64 = if extent <= 0x7fff_ffff {
        (extent / 2) as i64
    } else {
        -(((0x1_0000_0000u64 - extent as u64) / 2) as i64)
    };
    let at: i64 = start as i64 + half;
    if at < 0 {
        (at + 0x1_0000_0000) as u32
    } else {
        at as u32
    }
}

/// Once the copy of a new frame has begun, whatever is still said about the one before is ignored.
pub proof fn law_events_of_the_frame_before_are_ignored(
    s: CaptureState,
    format: Option<u32>,
    width: u32,
    height: u32,
    stride: u32,
)
    ensures
        s.begun().copied(s.current_frame_id) == s.begun(),
        s.begun().failed(s.current_frame_id) == s.begun(),
        s.begun().described(s.current_frame_id, format, width, height, stride) == (
            s.begun(),
            BufferAction::Ignore,
        ),
{
}

/// The number of wheel steps in a list of requests.
pub open spec fn wheel_steps(requests: Seq<PointerRequest>) -> int
    decreases requests.len(),
{
    if requests.len() == 0 {
        0
    } else {
        wheel_steps(requests.drop_last()) + match requests.last() {
            PointerRequest::AxisDiscrete { time, steps } => steps as int,
            _ => 0,
        }
    }
}

/// Scrolling by a number of ticks turns the wheel by as many steps.
pub proof fn law_each_tick_is_one_step(time: u32, n: int)
    requires
        n >= 0,
    ensures
        wheel_steps(scroll_ticks(time, n)) == n,
    decreases n,
{
    if n > 0 {
        law_each_tick_is_one_step(time, n - 1);
        let before = scroll_ticks(time, n - 1);
        let all = scroll_ticks(time, n);
        let tick = scroll_tick(time + n - 1);
        let (a, b) = (before.push(tick[0]), before.push(tick[0]).push(tick[1]));
        assert(all.drop_last() =~= b);
        assert(b.drop_last() =~= a);
        assert(a.drop_last() =~= before);
        assert(wheel_steps(a) == n - 1);
        assert(wheel_steps(b) == n);
        assert(all.last() == tick[2]);
    }
}

} // verus!
