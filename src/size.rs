//! Terminal geometry: how many pixel rows a terminal of a given width shows.
use vstd::prelude::*;

verus! {

/// Native width of the game window, in pixels.
pub const GAME_WIDTH: u16 = 320;

/// Native height of the game window, in pixels.
pub const GAME_HEIGHT: u16 = 200;

/// Even row count for a 16:10 picture that is `width` cells wide: two pixel
/// rows share one character row, so the count is rounded to an even number.
pub open spec fn rows_for_cols(width: nat) -> nat {
    ((width * 10 / 16 + 1) / 2) * 2
}

/// Pixel rows of the picture shown in a terminal `width` cells wide.
pub fn get_height_from_width(width: usize) -> (r: usize)
    requires
        width <= usize::MAX / 10,
    ensures
        r == rows_for_cols(width as nat),
        r % 2 == 0,
{
    ((width * 10 / 16 + 1) / 2) * 2
}

/// The area a session paints: `target_width` columns and `target_height`
/// pixel rows (half as many character rows).
#[derive(Clone, Copy, Debug, Default, PartialEq, Eq, Structural)]
pub struct TerminalSize {
    pub target_width: usize,
    pub target_height: usize,
}

impl TerminalSize {
    /// The size for a terminal `width` columns wide, as a PTY request or a
    /// window change reports it.
    pub open spec fn spec_for_width(width: u32) -> TerminalSize {
        TerminalSize { target_width: width as usize, target_height: rows_for_cols(width as nat) as usize }
    }

    /// Two pixel rows per character row, and at least one column and one
    /// character row: the geometry that frames and mouse scaling need.
    pub open spec fn is_paintable(&self) -> bool {
        self.target_width > 0 && self.target_height >= 2 && self.target_height % 2 == 0
    }

    /// The size after a PTY request or window change for `width` columns:
    /// the previous size plays no part.
    pub open spec fn spec_set_width(self, width: u32) -> TerminalSize {
        TerminalSize::spec_for_width(width)
    }

    /// Takes the size from a PTY request or a window change.
    pub fn set_width(&mut self, width: u32)
        ensures
            *final(self) == old(self).spec_set_width(width),
    {
        *self = TerminalSize::for_width(width);
    }

    pub fn for_width(width: u32) -> (r: TerminalSize)
        ensures
            r == TerminalSize::spec_for_width(width),
            r.target_height % 2 == 0,
            width >= 2 ==> r.is_paintable(),
    {
        let wide = width as u64;
        let rows = ((wide * 10 / 16 + 1) / 2) * 2;
        TerminalSize { target_width: width as usize, target_height: rows as usize }
    }
}

/// A PTY request sets the size from its column count; a window change that
/// then reports the same column count leaves the size as it was.
pub proof fn lemma_same_width_keeps_size(size: TerminalSize, width: u32)
    ensures
        ({
            let after_pty = size.spec_set_width(width);
            after_pty.spec_set_width(width) == after_pty
        }),
{
}

} // verus!
