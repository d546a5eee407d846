//! Painting an RGB frame as half-block characters: each character cell
//! shows two pixels, the upper one as background colour and the lower one as
//! the foreground colour of a lower half block.
use vstd::prelude::*;
use crate::text::{decimal, lemma_decimal_len_three, push_decimal};

verus! {

/// `ESC [`, the control sequence introducer.
pub open spec fn csi() -> Seq<u8> {
    seq![0x1bu8, 0x5bu8]
}

/// U+2584 LOWER HALF BLOCK in UTF-8.
pub open spec fn half_block() -> Seq<u8> {
    seq![0xe2u8, 0x96u8, 0x84u8]
}

/// Moves the cursor to row `oy + 1`, column `ox + 1`.
pub open spec fn home(ox: nat, oy: nat) -> Seq<u8> {
    csi() + decimal(oy + 1) + seq![0x3bu8] + decimal(ox + 1) + seq![0x48u8]
}

/// Cursor one line down, then `width` columns left.
pub open spec fn line_end(width: nat) -> Seq<u8> {
    csi() + seq![0x42u8] + csi() + decimal(width) + seq![0x44u8]
}

/// Resets all colours.
pub open spec fn reset() -> Seq<u8> {
    csi() + seq![0x6du8]
}

/// A 24-bit colour: `layer` is `4` for background, `3` for foreground.
pub open spec fn sgr_rgb(layer: u8, r: u8, g: u8, b: u8) -> Seq<u8> {
    csi() + seq![layer, 0x38u8, 0x3bu8, 0x32u8, 0x3bu8] + decimal(r as nat) + seq![0x3bu8] + decimal(g as nat)
        + seq![0x3bu8] + decimal(b as nat) + seq![0x6du8]
}

/// A colour of the 256-colour palette: `layer` is `4` for background, `3`
/// for foreground.
pub open spec fn sgr_256(layer: u8, index: u8) -> Seq<u8> {
    csi() + seq![layer, 0x38u8, 0x3bu8, 0x35u8, 0x3bu8] + decimal(index as nat) + seq![0x6du8]
}

/// Byte offset of pixel `(row, col)` in a frame `width` pixels wide.
pub open spec fn pixel_at(width: nat, row: nat, col: nat) -> int {
    ((row * width + col) * 3) as int
}

pub open spec fn rgb_cell(frame: Seq<u8>, width: nat, row: nat, col: nat) -> Seq<u8> {
    let t = pixel_at(width, row, col);
    let u = pixel_at(width, row + 1, col);
    sgr_rgb(0x34, frame[t], frame[t + 1], frame[t + 2]) + sgr_rgb(0x33, frame[u], frame[u + 1], frame[u + 2])
        + half_block()
}

/// The first `n` cells of the row pair that starts at pixel row `row`.
pub open spec fn rgb_cells(frame: Seq<u8>, width: nat, row: nat, n: nat) -> Seq<u8>
    decreases n,
{
    if n == 0 {
        seq![]
    } else {
        rgb_cells(frame, width, row, (n - 1) as nat) + rgb_cell(frame, width, row, (n - 1) as nat)
    }
}

/// The first `k` row pairs, each followed by its line end.
pub open spec fn rgb_pairs(frame: Seq<u8>, width: nat, k: nat) -> Seq<u8>
    decreases k,
{
    if k == 0 {
        seq![]
    } else {
        rgb_pairs(frame, width, (k - 1) as nat) + rgb_cells(frame, width, 2 * (k - 1) as nat, width) + line_end(width)
    }
}

/// The painted form of a frame in 24-bit colour.
pub open spec fn painted_rgb(frame: Seq<u8>, height: nat, width: nat, ox: nat, oy: nat) -> Seq<u8> {
    home(ox, oy) + rgb_pairs(frame, width, height / 2) + reset()
}

/// A channel value on the palette's six-step scale, rounded to the nearest step.
pub open spec fn cube_step(x: u8) -> int {
    (x as int + 25) / 51
}

/// The palette colour for an RGB value: equal channels go to the grey ramp
/// (near black and near white to the cube's corners), others to the
/// 6×6×6 cube.
pub open spec fn ansi_256_of(r: u8, g: u8, b: u8) -> u8 {
    if r == g && g == b {
        if r < 8 {
            16
        } else if r > 248 {
            231
        } else if (r - 8) / 10 > 23 {
            255
        } else {
            (232 + (r - 8) / 10) as u8
        }
    } else {
        (16 + 36 * cube_step(r) + 6 * cube_step(g) + cube_step(b)) as u8
    }
}

/// Pixel row below `row`, or `row` itself on the last row of an odd-height frame.
pub open spec fn lower_row(row: nat, height: nat) -> nat {
    if row + 1 < height { row + 1 } else { row }
}

pub open spec fn palette_cell(frame: Seq<u8>, width: nat, height: nat, row: nat, col: nat) -> Seq<u8> {
    let t = pixel_at(width, row, col);
    let u = pixel_at(width, lower_row(row, height), col);
    sgr_256(0x34, ansi_256_of(frame[t], frame[t + 1], frame[t + 2]))
        + sgr_256(0x33, ansi_256_of(frame[u], frame[u + 1], frame[u + 2])) + half_block()
}

pub open spec fn palette_cells(frame: Seq<u8>, width: nat, height: nat, row: nat, n: nat) -> Seq<u8>
    decreases n,
{
    if n == 0 {
        seq![]
    } else {
        palette_cells(frame, width, height, row, (n - 1) as nat)
            + palette_cell(frame, width, height, row, (n - 1) as nat)
    }
}

pub open spec fn palette_pairs(frame: Seq<u8>, width: nat, height: nat, k: nat) -> Seq<u8>
    decreases k,
{
    if k == 0 {
        seq![]
    } else {
        palette_pairs(frame, width, height, (k - 1) as nat)
            + palette_cells(frame, width, height, 2 * (k - 1) as nat, width) + line_end(width)
    }
}

/// The painted form of a frame in the 256-colour palette; an odd last
/// pixel row is shown in both halves of its cells.
pub open spec fn painted_256(frame: Seq<u8>, height: nat, width: nat, ox: nat, oy: nat) -> Seq<u8> {
    home(ox, oy) + palette_pairs(frame, width, height, (height + 1) / 2) + reset()
}

fn push_csi(out: &mut Vec<u8>)
    ensures
        final(out)@ == old(out)@ + csi(),
{
    out.push(0x1b);
    out.push(0x5b);
    assert(out@ =~= old(out)@ + csi());
}

fn push_half_block(out: &mut Vec<u8>)
    ensures
        final(out)@ == old(out)@ + half_block(),
{
    out.push(0xe2);
    out.push(0x96);
    out.push(0x84);
    assert(out@ =~= old(out)@ + half_block());
}

fn push_home(out: &mut Vec<u8>, ox: usize, oy: usize)
    ensures
        final(out)@ == old(out)@ + home(ox as nat, oy as nat),
{
    push_csi(out);
    push_decimal(out, oy as u128 + 1);
    out.push(0x3b);
    push_decimal(out, ox as u128 + 1);
    out.push(0x48);
    assert(out@ =~= old(out)@ + home(ox as nat, oy as nat));
}

fn push_line_end(out: &mut Vec<u8>, width: usize)
    ensures
        final(out)@ == old(out)@ + line_end(width as nat),
{
    push_csi(out);
    out.push(0x42);
    push_csi(out);
    push_decimal(out, width as u128);
    out.push(0x44);
    assert(out@ =~= old(out)@ + line_end(width as nat));
}

fn push_reset(out: &mut Vec<u8>)
    ensures
        final(out)@ == old(out)@ + reset(),
{
    push_csi(out);
    out.push(0x6d);
    assert(out@ =~= old(out)@ + reset());
}

fn push_sgr_rgb(out: &mut Vec<u8>, layer: u8, r: u8, g: u8, b: u8)
    ensures
        final(out)@ == old(out)@ + sgr_rgb(layer, r, g, b),
{
    push_csi(out);
    out.push(layer);
    out.push(0x38);
    out.push(0x3b);
    out.push(0x32);
    out.push(0x3b);
    push_decimal(out, r as u128);
    out.push(0x3b);
    push_decimal(out, g as u128);
    out.push(0x3b);
    push_decimal(out, b as u128);
    out.push(0x6d);
    assert(out@ =~= old(out)@ + sgr_rgb(layer, r, g, b));
}

fn push_sgr_256(out: &mut Vec<u8>, layer: u8, index: u8)
    ensures
        final(out)@ == old(out)@ + sgr_256(layer, index),
{
    push_csi(out);
    out.push(layer);
    out.push(0x38);
    out.push(0x3b);
    out.push(0x35);
    out.push(0x3b);
    push_decimal(out, index as u128);
    out.push(0x6d);
    assert(out@ =~= old(out)@ + sgr_256(layer, index));
}

proof fn lemma_pixel_in_frame(width: nat, height: nat, row: nat, col: nat)
    requires
        row < height,
        col < width,
    ensures
        pixel_at(width, row, col) + 2 < width * height * 3,
        pixel_at(width, row, col) >= 0,
{
    assert((row * width + col) * 3 + 2 < width * height * 3) by (nonlinear_arith)
        requires
            row < height,
            col < width,
    ;
}

/// Output size that the painted form of a frame is expected to stay within:
/// `13 + (height / 2) * (width * per_cell + 8)`, or the largest `usize`.
fn painted_capacity(width: usize, height: usize, per_cell: usize) -> usize
    requires
        width * height * 3 <= usize::MAX,
        per_cell <= 41,
{
    let rows = (height / 2) as u128;
    proof {
        assert((width as u128) * (per_cell as u128) <= 0xffff_ffff_ffff_ffffu128 * 41) by (nonlinear_arith)
            requires
                width <= usize::MAX,
                usize::MAX <= u64::MAX,
                per_cell <= 41,
        ;
    }
    let line = (width as u128) * (per_cell as u128) + 8;
    proof {
        assert(rows * line <= 0xffff_ffff_ffff_ffff_ffff * 64u128) by (nonlinear_arith)
            requires
                rows == height / 2,
                line == width * per_cell + 8,
                per_cell <= 41,
                width * height * 3 <= usize::MAX,
                height <= usize::MAX,
                usize::MAX <= u64::MAX,
        ;
    }
    let total = 13 + rows * line;
    if total > usize::MAX as u128 {
        usize::MAX
    } else {
        total as usize
    }
}

/// Paints a `width` × `height` RGB frame (three bytes per pixel, rows top
/// to bottom) in 24-bit colour, starting at column `offset_x + 1` and row
/// `offset_y + 1` of the terminal, and resets the colours at the end.
pub fn frame_to_rgb_ansi(frame_data: &Vec<u8>, height: usize, width: usize, offset_x: usize, offset_y: usize) -> (r: Vec<u8>)
    requires
        frame_data@.len() == width * height * 3,
        height % 2 == 0,
    ensures
        r@ == painted_rgb(frame_data@, height as nat, width as nat, offset_x as nat, offset_y as nat),
{
    let ghost frame = frame_data@;
    let frame_len = frame_data.len();
    let mut out: Vec<u8> = Vec::with_capacity(painted_capacity(width, height, 41));
    push_home(&mut out, offset_x, offset_y);
    let ghost start = out@;
    let mut row: usize = 0;
    while row < height
        invariant
            frame == frame_data@,
            frame.len() == width * height * 3,
            frame.len() <= usize::MAX,
            height % 2 == 0,
            row % 2 == 0,
            row <= height,
            out@ == start + rgb_pairs(frame, width as nat, (row / 2) as nat),
        decreases height - row,
    {
        let ghost before = out@;
        let mut col: usize = 0;
        while col < width
            invariant
                frame == frame_data@,
                frame.len() == width * height * 3,
                frame.len() <= usize::MAX,
                row + 1 < height,
                col <= width,
                out@ == before + rgb_cells(frame, width as nat, row as nat, col as nat),
            decreases width - col,
        {
            proof {
                lemma_pixel_in_frame(width as nat, height as nat, row as nat, col as nat);
                lemma_pixel_in_frame(width as nat, height as nat, (row + 1) as nat, col as nat);
            }
            let top = (row * width + col) * 3;
            let bottom = ((row + 1) * width + col) * 3;
            push_sgr_rgb(&mut out, 0x34, frame_data[top], frame_data[top + 1], frame_data[top + 2]);
            push_sgr_rgb(&mut out, 0x33, frame_data[bottom], frame_data[bottom + 1], frame_data[bottom + 2]);
            push_half_block(&mut out);
            col += 1;
            assert(out@ =~= before + rgb_cells(frame, width as nat, row as nat, col as nat));
        }
        push_line_end(&mut out, width);
        row += 2;
        assert(out@ =~= start + rgb_pairs(frame, width as nat, (row / 2) as nat));
    }
    push_reset(&mut out);
    assert(out@ =~= painted_rgb(frame, height as nat, width as nat, offset_x as nat, offset_y as nat));
    out
}

/// The palette colour for an RGB value.
pub fn rgb_to_ansi_256(r: u8, g: u8, b: u8) -> (c: u8)
    ensures
        c == ansi_256_of(r, g, b),
        16 <= c,
{
    if r == g && g == b {
        if r < 8 {
            return 16;
        }
        if r > 248 {
            return 231;
        }
        let step = (r - 8) / 10;
        if step > 23 {
            return 255;
        }
        return 232 + step;
    }
    let ri = (r as u32 + 25) / 51;
    let gi = (g as u32 + 25) / 51;
    let bi = (b as u32 + 25) / 51;
    (16 + 36 * ri + 6 * gi + bi) as u8
}

/// Paints a `width` × `height` RGB frame in the 256-colour palette, like
/// `frame_to_rgb_ansi`; the height may be odd.
pub fn frame_to_256_ansi(frame_data: &Vec<u8>, height: usize, width: usize, offset_x: usize, offset_y: usize) -> (r: Vec<u8>)
    requires
        frame_data@.len() == width * height * 3,
    ensures
        r@ == painted_256(frame_data@, height as nat, width as nat, offset_x as nat, offset_y as nat),
{
    let ghost frame = frame_data@;
    let frame_len = frame_data.len();
    let mut out: Vec<u8> = Vec::with_capacity(painted_capacity(width, height, 18));
    push_home(&mut out, offset_x, offset_y);
    let ghost start = out@;
    let pairs = height / 2 + height % 2;
    let mut pair: usize = 0;
    while pair < pairs
        invariant
            frame == frame_data@,
            frame.len() == width * height * 3,
            frame.len() <= usize::MAX,
            pairs == (height + 1) / 2,
            pair <= pairs,
            out@ == start + palette_pairs(frame, width as nat, height as nat, pair as nat),
        decreases pairs - pair,
    {
        let ghost before = out@;
        let row = 2 * pair;
        let lower = if row + 1 < height { row + 1 } else { row };
        let mut col: usize = 0;
        while col < width
            invariant
                frame == frame_data@,
                frame.len() == width * height * 3,
                frame.len() <= usize::MAX,
                row < height,
                row == 2 * pair,
                lower == lower_row(row as nat, height as nat),
                col <= width,
                out@ == before + palette_cells(frame, width as nat, height as nat, row as nat, col as nat),
            decreases width - col,
        {
            proof {
                lemma_pixel_in_frame(width as nat, height as nat, row as nat, col as nat);
                lemma_pixel_in_frame(width as nat, height as nat, lower as nat, col as nat);
            }
            let top = (row * width + col) * 3;
            let bottom = (lower * width + col) * 3;
            let bg = rgb_to_ansi_256(frame_data[top], frame_data[top + 1], frame_data[top + 2]);
            let fg = rgb_to_ansi_256(frame_data[bottom], frame_data[bottom + 1], frame_data[bottom + 2]);
            push_sgr_256(&mut out, 0x34, bg);
            push_sgr_256(&mut out, 0x33, fg);
            push_half_block(&mut out);
            col += 1;
            assert(out@ =~= before + palette_cells(frame, width as nat, height as nat, row as nat, col as nat));
        }
        push_line_end(&mut out, width);
        pair += 1;
        assert(out@ =~= start + palette_pairs(frame, width as nat, height as nat, pair as nat));
    }
    push_reset(&mut out);
    assert(out@ =~= painted_256(frame, height as nat, width as nat, offset_x as nat, offset_y as nat));
    out
}

proof fn lemma_rgb_cell_len(frame: Seq<u8>, width: nat, height: nat, row: nat, col: nat)
    requires
        frame.len() == width * height * 3,
        row + 1 < height,
        col < width,
        forall|i: int| 0 <= i < frame.len() ==> frame[i] >= 100,
    ensures
        rgb_cell(frame, width, row, col).len() == 41,
{
    lemma_pixel_in_frame(width, height, row, col);
    lemma_pixel_in_frame(width, height, row + 1, col);
    let t = pixel_at(width, row, col);
    let u = pixel_at(width, row + 1, col);
    lemma_decimal_len_three(frame[t] as nat);
    lemma_decimal_len_three(frame[t + 1] as nat);
    lemma_decimal_len_three(frame[t + 2] as nat);
    lemma_decimal_len_three(frame[u] as nat);
    lemma_decimal_len_three(frame[u + 1] as nat);
    lemma_decimal_len_three(frame[u + 2] as nat);
}

proof fn lemma_rgb_cells_len(frame: Seq<u8>, width: nat, height: nat, row: nat, n: nat)
    requires
        frame.len() == width * height * 3,
        row + 1 < height,
        n <= width,
        forall|i: int| 0 <= i < frame.len() ==> frame[i] >= 100,
    ensures
        rgb_cells(frame, width, row, n).len() == n * 41,
    decreases n,
{
    if n > 0 {
        lemma_rgb_cells_len(frame, width, height, row, (n - 1) as nat);
        lemma_rgb_cell_len(frame, width, height, row, (n - 1) as nat);
    }
}

proof fn lemma_rgb_pairs_len(frame: Seq<u8>, width: nat, height: nat, k: nat)
    requires
        frame.len() == width * height * 3,
        height % 2 == 0,
        k <= height / 2,
        forall|i: int| 0 <= i < frame.len() ==> frame[i] >= 100,
    ensures
        rgb_pairs(frame, width, k).len() == k * (width * 41 + line_end(width).len()),
    decreases k,
{
    if k > 0 {
        lemma_rgb_pairs_len(frame, width, height, (k - 1) as nat);
        lemma_rgb_cells_len(frame, width, height, 2 * (k - 1) as nat, width);
        let per = width * 41 + line_end(width).len();
        assert(rgb_pairs(frame, width, k).len() == rgb_pairs(frame, width, (k - 1) as nat).len() + per);
        assert((k - 1) * per + per == k * per) by (nonlinear_arith);
    } else {
        assert(0 * (width * 41 + line_end(width).len()) == 0);
    }
}

/// The painted form of a frame whose colour components all have three
/// decimal digits has a fixed length: the cursor-home sequence, 41 bytes for
/// each cell and a line end for each row pair, and the colour reset.
pub proof fn lemma_painted_length(frame: Seq<u8>, height: nat, width: nat, ox: nat, oy: nat)
    requires
        frame.len() == width * height * 3,
        height % 2 == 0,
        forall|i: int| 0 <= i < frame.len() ==> frame[i] >= 100,
    ensures
        painted_rgb(frame, height, width, ox, oy).len()
            == home(ox, oy).len() + (height / 2) * (width * 41 + line_end(width).len()) + reset().len(),
        reset().len() == 3,
{
    lemma_rgb_pairs_len(frame, width, height, height / 2);
}

} // verus!
