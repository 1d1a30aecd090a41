//! The pixel buffer: rows from the top, pixels from the left, four bytes to a
//! pixel in the order red, green, blue, opacity.

use vstd::prelude::*;
use vstd::arithmetic::div_mod::*;
use vstd::arithmetic::mul::*;
use crate::color::Color;

verus! {

/// Bytes to a pixel.
pub const PIXEL_BYTES: usize = 4;

/// How many pixels `draw` paints: as many as the buffer holds whole, and no
/// more than there are colours.
pub open spec fn painted_pixels(frame_len: nat, colors: nat) -> nat {
    if frame_len / 4 <= colors {
        frame_len / 4
    } else {
        colors
    }
}

/// The buffer `before` with its first `n` pixels set to the first `n` colours.
pub open spec fn painted(before: Seq<u8>, colors: Seq<Color>, n: nat) -> Seq<u8> {
    Seq::new(
        before.len(),
        |j: int|
            if j / 4 < n {
                colors[j / 4].bytes()[j % 4]
            } else {
                before[j]
            },
    )
}

/// Where pixel `i` of a canvas `width` wide and `height` high lies, counted
/// from the canvas's centre: to the right and upwards. Pixels run along rows
/// from the left, and rows from the top.
pub open spec fn point_of(i: int, width: int, height: int) -> (int, int) {
    (i % width - width / 2, height / 2 - i / width)
}

/// Two pixels lie at two points.
pub proof fn lemma_points_differ(i: int, j: int, width: int, height: int)
    requires
        width > 0,
        i != j,
    ensures
        point_of(i, width, height) != point_of(j, width, height),
{
    lemma_fundamental_div_mod(i, width);
    lemma_fundamental_div_mod(j, width);
}

/// The pixels of a canvas lie on it: `width` columns about the centre, and
/// `height` rows.
pub proof fn lemma_point_on_canvas(i: int, width: int, height: int)
    requires
        width > 0,
        0 <= i < width * height,
    ensures
        -(width / 2) <= point_of(i, width, height).0 < width - width / 2,
        height / 2 - height < point_of(i, width, height).1 <= height / 2,
{
    assert(height > 0) by (nonlinear_arith)
        requires
            width > 0,
            0 < width * height,
    ;
    lemma_mod_bound(i, width);
    lemma_div_pos_is_pos(i, width);
    lemma_mul_is_commutative(width, height);
    lemma_div_by_multiple_is_strongly_ordered(i, height * width, height, width);
    lemma_div_by_multiple(height, width);
}

/// Where pixel `i` of a canvas `width` wide and `height` high lies.
pub fn canvas_point(i: usize, width: u32, height: u32) -> (point: (i64, i64))
    requires
        width > 0,
        i <= i64::MAX,
    ensures
        (point.0 as int, point.1 as int) == point_of(i as int, width as int, height as int),
{
    let column: i64 = (i % (width as usize)) as i64;
    let row: i64 = (i / (width as usize)) as i64;
    (column - (width / 2) as i64, (height / 2) as i64 - row)
}

/// Sets pixel `i` of the buffer to `color`.
pub fn put_pixel(frame: &mut [u8], i: usize, color: Color)
    requires
        4 * i + 4 <= old(frame)@.len(),
    ensures
        final(frame)@ == old(frame)@.update(4 * i, color.r).update(4 * i + 1, color.g).update(
            4 * i + 2,
            color.b,
        ).update(4 * i + 3, color.a),
{
    let at: usize = 4 * i;
    frame[at] = color.r;
    frame[at + 1] = color.g;
    frame[at + 2] = color.b;
    frame[at + 3] = color.a;
}

/// Paints the buffer: pixel `i` takes `colors[i]`, for every whole pixel of
/// the buffer that has a colour. Bytes beyond those pixels stay.
pub fn draw(frame: &mut [u8], colors: &Vec<Color>)
    ensures
        final(frame)@.len() == old(frame)@.len(),
        final(frame)@ == painted(
            old(frame)@,
            colors@,
            painted_pixels(old(frame)@.len(), colors@.len()),
        ),
{
    let whole: usize = frame.len() / 4;
    let n: usize = if whole <= colors.len() { whole } else { colors.len() };
    let mut i: usize = 0;
    while i < n
        invariant
            i <= n,
            n <= colors.len(),
            4 * n <= frame@.len(),
            frame@.len() == old(frame)@.len(),
            frame@ == painted(old(frame)@, colors@, i as nat),
        decreases n - i,
    {
        put_pixel(frame, i, colors[i]);
        i += 1;
        assert(frame@ =~= painted(old(frame)@, colors@, i as nat));
    }
}

} // verus!
