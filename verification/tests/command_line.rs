use scrollshot::cli::{default_output_name, frame_file_name, Cli};

fn cli(output: Option<&str>, positional: Option<&str>) -> Cli {
    Cli {
        input: None,
        output: output.map(|p| p.as_bytes().to_vec()),
        capture_only: None,
        scroll_delay: 200,
        scroll_ticks: 2,
        cleanup: false,
        debug: false,
        positional_output: positional.map(|p| p.as_bytes().to_vec()),
    }
}

#[test]
fn the_output_option_comes_first() {
    assert_eq!(cli(Some("a.png"), Some("b.png")).output_path(5), b"a.png".to_vec());
    assert_eq!(cli(Some("a.png"), None).output_path(5), b"a.png".to_vec());
}

#[test]
fn the_output_argument_comes_second() {
    assert_eq!(cli(None, Some("b.png")).output_path(5), b"b.png".to_vec());
}

#[test]
fn the_default_output_is_named_after_the_time() {
    assert_eq!(cli(None, None).output_path(1700000000), b"scrollshot_1700000000.png".to_vec());
    assert_eq!(default_output_name(0), "scrollshot_0.png");
    assert_eq!(default_output_name(u64::MAX), format!("scrollshot_{}.png", u64::MAX));
}

#[test]
fn frames_are_numbered_in_their_file_names() {
    for i in [1, 9, 10, 42, 200, 1234567890] {
        assert_eq!(frame_file_name(i), format!("frame_{}.png", i));
    }
}

#[test]
fn each_frame_has_a_file_of_its_own() {
    let names: std::collections::HashSet<String> = (0..500).map(frame_file_name).collect();
    assert_eq!(names.len(), 500);
}
