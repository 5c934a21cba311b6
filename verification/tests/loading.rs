use scrollshot::frame::Frame;
use scrollshot::loader::{FrameLoader, LoadError};

#[test]
fn files_are_read_in_the_order_of_their_numbers() {
    let mut loader = FrameLoader::new();
    for i in 1..=12u32 {
        assert_eq!(loader.next_file(), format!("frame_{}.png", i));
        assert!(loader.on_file(Some(Frame::new(i, 1))));
    }
    assert_eq!(loader.next_file(), "frame_13.png");
    assert!(!loader.on_file(None));
    let frames = loader.finish().ok().unwrap();
    let widths: Vec<u32> = frames.iter().map(|f| f.width()).collect();
    assert_eq!(widths, (1..=12).collect::<Vec<u32>>());
}

#[test]
fn a_directory_without_frames_is_an_error() {
    let mut loader = FrameLoader::new();
    assert_eq!(loader.next_file(), "frame_1.png");
    assert!(!loader.on_file(None));
    assert_eq!(loader.finish().err(), Some(LoadError::NoFrames));
}
