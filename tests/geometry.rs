use minecraft_terminal_viewer::capture::CaptureStage;
use minecraft_terminal_viewer::size::{get_height_from_width, TerminalSize};

#[test]
fn eighty_columns_give_fifty_rows() {
    assert_eq!(get_height_from_width(80), 50);
    let size = TerminalSize::for_width(80);
    assert_eq!(size.target_width, 80);
    assert_eq!(size.target_height, 50);
    assert_eq!(size.target_width * size.target_height * 3, 12_000);
}

#[test]
fn heights_are_even() {
    assert_eq!(get_height_from_width(81), 50);
    assert_eq!(get_height_from_width(40), 26);
    assert_eq!(get_height_from_width(30), 18);
    assert_eq!(get_height_from_width(0), 0);
}

#[test]
fn window_change_with_same_width_keeps_size() {
    let mut size = TerminalSize::default();
    size.set_width(120);
    let after_pty = size;
    size.set_width(120);
    assert_eq!(size, after_pty);
    assert_eq!(size.target_height, 76);
}

#[test]
fn resize_to_current_size_does_not_restart() {
    let mut stage = CaptureStage::new();
    assert!(stage.on_size(TerminalSize::for_width(80)));
    assert!(!stage.on_size(TerminalSize::for_width(80)));
    assert!(stage.on_size(TerminalSize::for_width(100)));
    stage.stop();
    stage.stop();
    assert!(stage.current.is_none());
    assert!(stage.on_size(TerminalSize::for_width(100)));
}
