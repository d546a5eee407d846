//! Framing of painted frames for the terminal: each one is shown as a single
//! synchronized update, with everything below it erased.
use vstd::prelude::*;

verus! {

/// `ESC [ ? 2026 h`: the terminal holds its display until the update ends.
pub open spec fn sync_begin() -> Seq<u8> {
    seq![0x1bu8, 0x5bu8, 0x3fu8, 0x32u8, 0x30u8, 0x32u8, 0x36u8, 0x68u8]
}

/// `ESC [ ? 2026 l`: the held update is shown.
pub open spec fn sync_end() -> Seq<u8> {
    seq![0x1bu8, 0x5bu8, 0x3fu8, 0x32u8, 0x30u8, 0x32u8, 0x36u8, 0x6cu8]
}

/// `ESC [ J`: erases from the cursor to the end of the screen.
pub open spec fn erase_below() -> Seq<u8> {
    seq![0x1bu8, 0x5bu8, 0x4au8]
}

/// Relies on crossterm's `BeginSynchronizedUpdate`, whose ANSI form is
/// `ESC [ ? 2026 h`.
#[verifier::external_body]
fn begin_synchronized_update() -> (r: Vec<u8>)
    ensures
        r@ == sync_begin(),
{
    let mut text = String::new();
    let _ = crossterm::Command::write_ansi(&crossterm::terminal::BeginSynchronizedUpdate, &mut text);
    text.into_bytes()
}

/// Relies on crossterm's `EndSynchronizedUpdate`, whose ANSI form is
/// `ESC [ ? 2026 l`.
#[verifier::external_body]
fn end_synchronized_update() -> (r: Vec<u8>)
    ensures
        r@ == sync_end(),
{
    let mut text = String::new();
    let _ = crossterm::Command::write_ansi(&crossterm::terminal::EndSynchronizedUpdate, &mut text);
    text.into_bytes()
}

/// Relies on crossterm's `Clear(ClearType::FromCursorDown)`, whose ANSI
/// form is `ESC [ J`.
#[verifier::external_body]
fn clear_from_cursor_down() -> (r: Vec<u8>)
    ensures
        r@ == erase_below(),
{
    let mut text = String::new();
    let clear = crossterm::terminal::Clear(crossterm::terminal::ClearType::FromCursorDown);
    let _ = crossterm::Command::write_ansi(&clear, &mut text);
    text.into_bytes()
}

/// The bytes that show one painted frame: a synchronized update holding the
/// frame and an erase of what lies below it.
pub fn frame_for_terminal(painted: &Vec<u8>) -> (r: Vec<u8>)
    ensures
        r@ == sync_begin() + painted@ + erase_below() + sync_end(),
{
    let mut out = begin_synchronized_update();
    out.extend_from_slice(painted.as_slice());
    let mut clear = clear_from_cursor_down();
    out.append(&mut clear);
    let mut end = end_synchronized_update();
    out.append(&mut end);
    out
}

} // verus!
