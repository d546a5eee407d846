use minecraft_terminal_viewer::encode::{frame_to_256_ansi, frame_to_rgb_ansi, rgb_to_ansi_256};
use minecraft_terminal_viewer::frames::RenderPipeline;
use minecraft_terminal_viewer::sink::frame_for_terminal;

#[test]
fn one_cell_in_rgb() {
    let frame = vec![1, 2, 3, 40, 50, 255];
    let painted = frame_to_rgb_ansi(&frame, 2, 1, 0, 0);
    let expected = "\x1b[1;1H\x1b[48;2;1;2;3m\x1b[38;2;40;50;255m\u{2584}\x1b[B\x1b[1D\x1b[m";
    assert_eq!(painted, expected.as_bytes().to_vec());
}

#[test]
fn offsets_move_the_home_position() {
    let frame = vec![0; 6];
    let painted = frame_to_rgb_ansi(&frame, 2, 1, 4, 9);
    assert!(painted.starts_with(b"\x1b[10;5H"));
}

#[test]
fn painted_length_follows_geometry() {
    let (cols, rows) = (12usize, 8usize);
    let frame = vec![200u8; cols * rows * 3];
    let painted = frame_to_rgb_ansi(&frame, rows, cols, 0, 0);
    let home = "\x1b[1;1H".len();
    let line_end = "\x1b[B\x1b[12D".len();
    assert_eq!(painted.len(), home + (rows / 2) * (cols * 41 + line_end) + 3);
}

#[test]
fn empty_frame_paints_home_and_reset() {
    let painted = frame_to_rgb_ansi(&Vec::new(), 0, 0, 0, 0);
    assert_eq!(painted, b"\x1b[1;1H\x1b[m".to_vec());
}

#[test]
fn palette_indices() {
    assert_eq!(rgb_to_ansi_256(0, 0, 0), 16);
    assert_eq!(rgb_to_ansi_256(255, 255, 255), 231);
    assert_eq!(rgb_to_ansi_256(128, 128, 128), 244);
    assert_eq!(rgb_to_ansi_256(248, 248, 248), 255);
    assert_eq!(rgb_to_ansi_256(255, 0, 0), 196);
    assert_eq!(rgb_to_ansi_256(0, 128, 255), 16 + 6 * 3 + 5);
}

#[test]
fn palette_frame_with_odd_height() {
    let frame = vec![255, 0, 0];
    let painted = frame_to_256_ansi(&frame, 1, 1, 0, 0);
    let expected = "\x1b[1;1H\x1b[48;5;196m\x1b[38;5;196m\u{2584}\x1b[B\x1b[1D\x1b[m";
    assert_eq!(painted, expected.as_bytes().to_vec());
}

fn numbered_frame(serial: u8) -> Vec<u8> {
    vec![serial; 2 * 2 * 3]
}

#[test]
fn newest_frame_wins_and_older_are_counted() {
    let mut pipeline = RenderPipeline::new(2, 2);
    pipeline.feed(&numbered_frame(1));
    let first = pipeline.next_painted().unwrap();
    assert_eq!(first, frame_to_rgb_ansi(&numbered_frame(1), 2, 2, 0, 0));
    assert_eq!(pipeline.dropped(), 0);
    for serial in 2..=4 {
        pipeline.feed(&numbered_frame(serial));
    }
    let second = pipeline.next_painted().unwrap();
    assert_eq!(second, frame_to_rgb_ansi(&numbered_frame(4), 2, 2, 0, 0));
    assert_eq!(pipeline.dropped(), 2);
    assert!(pipeline.next_painted().is_none());
}

#[test]
fn split_frames_are_joined() {
    let mut pipeline = RenderPipeline::new(2, 2);
    assert_eq!(pipeline.frame_size(), 12);
    let mut bytes = numbered_frame(7);
    bytes.extend(numbered_frame(8));
    pipeline.feed(&bytes[..5]);
    assert!(pipeline.take_newest().is_none());
    pipeline.feed(&bytes[5..20]);
    assert_eq!(pipeline.take_newest(), Some(numbered_frame(7)));
    pipeline.feed(&bytes[20..]);
    assert_eq!(pipeline.take_newest(), Some(numbered_frame(8)));
    assert_eq!(pipeline.dropped(), 0);
}

#[test]
fn synchronized_update_brackets_frame() {
    let framed = frame_for_terminal(&b"XY".to_vec());
    assert_eq!(framed, b"\x1b[?2026hXY\x1b[J\x1b[?2026l".to_vec());
}
