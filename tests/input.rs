use minecraft_terminal_viewer::input::{
    keysym_for, scale_cell, InputEvent, InputTranslator, KeyCode, KeyEvent, Keysym, MouseEvent, MouseMode,
    SynthInput, Wheel,
};
use minecraft_terminal_viewer::size::TerminalSize;

fn key(c: char) -> InputEvent {
    InputEvent::Key(KeyEvent { key: KeyCode::Char(c), ctrl: false })
}

fn mouse(x: u16, y: u16) -> InputEvent {
    InputEvent::Mouse(MouseEvent { x, y, left: false, right: false, wheel: Wheel::Still })
}

fn size_80() -> TerminalSize {
    TerminalSize { target_width: 80, target_height: 50 }
}

#[test]
fn mouse_absolute_then_relative() {
    let mut t = InputTranslator::new(1280, 720, true);
    let first = t.handle(mouse(40, 10), 0, size_80());
    assert_eq!(
        first.actions,
        vec![SynthInput::MouseMove(640, 288), SynthInput::MouseUp(1), SynthInput::MouseUp(3)]
    );
    let toggle = t.handle(key('`'), 1, size_80());
    assert!(toggle.actions.is_empty());
    assert_eq!(t.mode, MouseMode::Relative);
    let second = t.handle(mouse(41, 10), 2, size_80());
    assert_eq!(
        second.actions,
        vec![SynthInput::MouseMoveRelative(80, 0), SynthInput::MouseUp(1), SynthInput::MouseUp(3)]
    );
}

#[test]
fn first_relative_report_only_records_position() {
    let mut t = InputTranslator::new(1280, 720, false);
    let first = t.handle(mouse(40, 10), 0, size_80());
    assert_eq!(first.actions, vec![SynthInput::MouseUp(1), SynthInput::MouseUp(3)]);
    let same = t.handle(mouse(40, 10), 1, size_80());
    assert_eq!(same.actions, vec![SynthInput::MouseUp(1), SynthInput::MouseUp(3)]);
}

#[test]
fn buttons_and_wheel() {
    let mut t = InputTranslator::new(320, 200, true);
    let press = MouseEvent { x: 0, y: 0, left: true, right: false, wheel: Wheel::Up };
    let r1 = t.handle(InputEvent::Mouse(press), 0, size_80());
    assert_eq!(
        r1.actions,
        vec![SynthInput::MouseMove(0, 0), SynthInput::MouseDown(1), SynthInput::MouseUp(3), SynthInput::Click(4)]
    );
    let hold = MouseEvent { x: 0, y: 0, left: true, right: true, wheel: Wheel::Down };
    let r2 = t.handle(InputEvent::Mouse(hold), 1, size_80());
    assert_eq!(r2.actions, vec![SynthInput::MouseMove(0, 0), SynthInput::MouseDown(3), SynthInput::Click(5)]);
}

#[test]
fn movement_key_held_and_released_once() {
    let mut t = InputTranslator::new(320, 200, true);
    assert_eq!(t.handle(key('w'), 0, size_80()).actions, vec![SynthInput::KeyDown('w')]);
    assert!(t.sweep(50).is_empty());
    assert!(t.handle(key('w'), 80, size_80()).actions.is_empty());
    assert!(t.sweep(130).is_empty());
    assert!(t.sweep(179).is_empty());
    assert_eq!(t.sweep(180), vec![SynthInput::KeyUp('w')]);
    assert!(t.sweep(230).is_empty());
    assert!(!t.w.pressed);
}

#[test]
fn two_movement_keys_release_in_order() {
    let mut t = InputTranslator::new(320, 200, true);
    t.handle(key('d'), 0, size_80());
    t.handle(key('a'), 10, size_80());
    assert_eq!(t.sweep(110), vec![SynthInput::KeyUp('a'), SynthInput::KeyUp('d')]);
}

#[test]
fn ctrl_c_stops() {
    let mut t = InputTranslator::new(320, 200, true);
    let r = t.handle(InputEvent::Key(KeyEvent { key: KeyCode::Char('c'), ctrl: true }), 0, size_80());
    assert!(r.stop);
    assert!(r.actions.is_empty());
    let plain = t.handle(key('c'), 0, size_80());
    assert!(!plain.stop);
    assert_eq!(plain.actions, vec![SynthInput::Key(Keysym::Char('c'))]);
}

#[test]
fn e_toggles_and_is_forwarded() {
    let mut t = InputTranslator::new(320, 200, false);
    let r = t.handle(key('e'), 0, size_80());
    assert_eq!(r.actions, vec![SynthInput::Key(Keysym::Char('e'))]);
    assert_eq!(t.mode, MouseMode::Absolute);
    let esc = t.handle(InputEvent::Key(KeyEvent { key: KeyCode::Escape, ctrl: false }), 1, size_80());
    assert_eq!(esc.actions, vec![SynthInput::Key(Keysym::Escape)]);
    assert_eq!(t.mode, MouseMode::Relative);
}

#[test]
fn named_keys() {
    let mut t = InputTranslator::new(320, 200, true);
    let enter = t.handle(InputEvent::Key(KeyEvent { key: KeyCode::Enter, ctrl: false }), 0, size_80());
    assert_eq!(enter.actions, vec![SynthInput::Key(Keysym::Return)]);
    let page = t.handle(InputEvent::Key(KeyEvent { key: KeyCode::PageDown, ctrl: false }), 0, size_80());
    assert_eq!(page.actions, vec![SynthInput::Key(Keysym::PageDown)]);
    let other = t.handle(InputEvent::Key(KeyEvent { key: KeyCode::Other, ctrl: false }), 0, size_80());
    assert!(other.actions.is_empty());
    assert_eq!(t.handle(key(';'), 0, size_80()).actions, vec![SynthInput::Key(Keysym::Semicolon)]);
}

#[test]
fn punctuation_keysyms() {
    assert_eq!(keysym_for(' '), Keysym::Space);
    assert_eq!(keysym_for('['), Keysym::BracketLeft);
    assert_eq!(keysym_for('~'), Keysym::AsciiTilde);
    assert_eq!(keysym_for('#'), Keysym::NumberSign);
    assert_eq!(keysym_for('Q'), Keysym::Char('Q'));
    assert_eq!(keysym_for('7'), Keysym::Char('7'));
}

#[test]
fn scaling_rounds_to_nearest() {
    assert_eq!(scale_cell(40, 80, 1280), 640);
    assert_eq!(scale_cell(10, 25, 720), 288);
    assert_eq!(scale_cell(1, 3, 2), 1);
    assert_eq!(scale_cell(1, 3, 1), 0);
}
