//! Loading frames from a directory: which file is read next, when to stop, and that finding no
//! frame is an error.
//!
//! [`FrameLoader::next_file`] names the file to open; what comes of opening it is handed to
//! [`FrameLoader::on_file`].

use vstd::prelude::*;
use crate::cli::{
    frame_file_chars, frame_file_name, is_numbered, law_files_are_named_after_their_numbers,
};
use crate::frame::Frame;

verus! {

/// Why no frames were loaded.
#[derive(Clone, Copy, Debug, PartialEq, Eq, Structural)]
pub enum LoadError {
    /// The directory holds no frames.
    NoFrames,
}

/// The frames that were loaded so far.
pub struct FrameLoader {
    pub frames: Vec<Frame>,
}

/// The name of the file that is opened after `n` files were.
pub open spec fn file_after(n: nat) -> Seq<char> {
    frame_file_chars((n + 1) as usize)
}

/// The frames that were loaded, or why there are none.
pub open spec fn loaded(frames: Seq<Frame>) -> Result<Seq<Frame>, LoadError> {
    if frames.len() == 0 {
        Err(LoadError::NoFrames)
    } else {
        Ok(frames)
    }
}

/// The frames after a file was opened, or could not be.
pub open spec fn frames_after_file(frames: Seq<Frame>, opened: Option<Frame>) -> Seq<Frame> {
    match opened {
        Some(f) => frames.push(f),
        None => frames,
    }
}

impl FrameLoader {
    /// The start of loading.
    pub fn new() -> (r: FrameLoader)
        ensures
            r.frames@ == Seq::<Frame>::empty(),
    {
        FrameLoader { frames: Vec::new() }
    }

    /// The name of the file to open next. Files are numbered from one.
    pub fn next_file(&self) -> (name: String)
        requires
            self.frames@.len() < usize::MAX,
        ensures
            name@ == file_after(self.frames@.len()),
            name@ == frame_file_chars((self.frames@.len() + 1) as usize),
    {
        frame_file_name(self.frames.len() + 1)
    }

    /// Takes the frame of the file that was opened, or `None` where it could not be. Returns
    /// whether to go on: the first file that cannot be opened is the end.
    pub fn on_file(&mut self, opened: Option<Frame>) -> (more: bool)
        ensures
            more == (opened is Some),
            final(self).frames@ == frames_after_file(old(self).frames@, opened),
    {
        match opened {
            Some(f) => {
                self.frames.push(f);
                true
            },
            None => false,
        }
    }

    /// The frames that were loaded, of which there has to be one.
    pub fn finish(self) -> (r: Result<Vec<Frame>, LoadError>)
        ensures
            match (r, loaded(self.frames@)) {
                (Ok(a), Ok(b)) => a@ == b,
                (Err(a), Err(b)) => a == b,
                _ => false,
            },
            match r {
                Ok(v) => v@ == self.frames@ && v@.len() > 0,
                Err(e) => self.frames@.len() == 0 && e == LoadError::NoFrames,
            },
    {
        if self.frames.len() == 0 {
            Err(LoadError::NoFrames)
        } else {
            Ok(self.frames)
        }
    }
}

/// The frames after files were opened one after another.
pub open spec fn frames_after_files(files: Seq<Option<Frame>>) -> Seq<Frame>
    decreases files.len(),
{
    if files.len() == 0 {
        Seq::empty()
    } else {
        frames_after_file(frames_after_files(files.drop_last()), files.last())
    }
}

/// The frames are those of the files up to the first one that is missing, in the order of their
/// numbers, and none is read twice: whenever the next file is named, as many have been read as
/// come before it.
pub proof fn law_frames_come_from_consecutive_files(files: Seq<Option<Frame>>)
    requires
        forall|i: int| 0 <= i < files.len() ==> #[trigger] files[i] is Some,
    ensures
        frames_after_files(files).len() == files.len(),
        forall|i: int|
            0 <= i < files.len() ==> #[trigger] files[i] == Some(frames_after_files(files)[i]),
        frames_after_files(files.push(None)) == frames_after_files(files),
    decreases files.len(),
{
    assert(files.push(None).drop_last() =~= files);
    if files.len() > 0 {
        let before = files.drop_last();
        law_frames_come_from_consecutive_files(before);
        assert(files.last() is Some);
        assert forall|i: int| 0 <= i < files.len() implies #[trigger] files[i] == Some(
            frames_after_files(files)[i],
        ) by {
            if i < before.len() {
                assert(before[i] == files[i]);
            }
        }
    }
}

/// The files are called `frame_1.png`, `frame_2.png` and so on: after as many as were read comes
/// the next number.
pub proof fn law_files_are_read_by_number(files: Seq<Option<Frame>>)
    requires
        forall|i: int| 0 <= i < files.len() ==> #[trigger] files[i] is Some,
        files.len() < usize::MAX,
    ensures
        is_numbered(
            file_after(frames_after_files(files).len()),
            "frame_"@,
            (files.len() + 1) as int,
            ".png"@,
        ),
{
    law_frames_come_from_consecutive_files(files);
    law_files_are_named_after_their_numbers((files.len() + 1) as usize, 0);
}

/// All frames that were read are loaded, and having read none is an error.
pub proof fn law_all_frames_are_loaded(files: Seq<Option<Frame>>)
    requires
        forall|i: int| 0 <= i < files.len() ==> #[trigger] files[i] is Some,
    ensures
        files.len() == 0 <==> loaded(frames_after_files(files)) is Err,
        loaded(frames_after_files(files)) matches Ok(frames) ==> {
            &&& frames.len() == files.len()
            &&& forall|i: int| 0 <= i < files.len() ==> #[trigger] files[i] == Some(frames[i])
        },
{
    law_frames_come_from_consecutive_files(files);
}

} // verus!
