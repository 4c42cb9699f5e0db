//! Pixel-level painting: what each drawing primitive does to a frame buffer.
//!
//! A frame buffer is a vector of rows, each a vector of packed `0x00RRGGBB`
//! pixels; rows need not share one length. Its model is a sequence of
//! sequences. Every primitive is total: a pixel that falls outside the buffer
//! or outside the clip bounds is skipped.

use vstd::prelude::*;

verus! {

/// Coverage of a fully covered pixel. Coverage is a fixed-point fraction with
/// 24 fractional bits.
pub const COVERAGE_FULL: u32 = 0x100_0000;

/// Coverage of a half covered pixel: the least coverage that is painted.
pub const COVERAGE_HALF: u32 = 0x80_0000;

/// One pixel of rasterized text: its offset from the text's origin, to the
/// right and down where positive, and how much of it the glyph covers.
#[derive(Debug, Clone, Copy, PartialEq, Eq, Structural)]
pub struct CoverageSample {
    pub dx: i64,
    pub dy: i64,
    pub coverage: u32,
}

/// The largest offset that a scope or an origin is followed to. From beyond
/// it nothing reaches a pixel, not even a sample with the most negative
/// offset.
pub const HORIZON: u128 = 0x4_0000_0000_0000_0000;

/// The model of a frame buffer: its rows from top to bottom.
pub open spec fn frame_of(buf: Seq<Vec<u32>>) -> Seq<Seq<u32>> {
    Seq::new(buf.len(), |i: int| buf[i]@)
}

/// A frame of `height` rows of `width` pixels, all of them background.
pub open spec fn blank_frame(width: usize, height: usize) -> Seq<Seq<u32>> {
    Seq::new(height as nat, |y: int| Seq::new(width as nat, |x: int| 0u32))
}

/// A frame of the same shape with every pixel background.
pub open spec fn cleared(frame: Seq<Seq<u32>>) -> Seq<Seq<u32>> {
    Seq::new(frame.len(), |y: int| Seq::new(frame[y].len(), |x: int| 0u32))
}

/// The pixels of a frame in one sequence, row after row.
pub open spec fn row_major(frame: Seq<Seq<u32>>) -> Seq<u32>
    decreases frame.len(),
{
    if frame.len() == 0 {
        Seq::empty()
    } else {
        row_major(frame.drop_last()) + frame.last()
    }
}

/// Whether every row, and the number of rows, fits a machine index.
pub open spec fn frame_addressable(frame: Seq<Seq<u32>>) -> bool {
    &&& frame.len() <= usize::MAX
    &&& forall|i: int| 0 <= i < frame.len() ==> (#[trigger] frame[i]).len() <= usize::MAX
}

/// Whether `(px, py)` lies in the rectangle with corner `(x0, y0)` and the
/// given size, and inside the clip bounds.
pub open spec fn rect_covers(
    x0: int,
    y0: int,
    w: int,
    h: int,
    clip_w: int,
    clip_h: int,
    px: int,
    py: int,
) -> bool {
    &&& x0 <= px < x0 + w
    &&& y0 <= py < y0 + h
    &&& px < clip_w
    &&& py < clip_h
}

/// Whether the point at distance `(a, b)` from a corner's reference point
/// lies within `r` of it.
pub open spec fn within_radius(a: int, b: int, r: int) -> bool {
    a * a + b * b <= r * r
}

/// Whether a rounded rectangle of size `w` by `h` keeps the pixel at
/// `(dx, dy)` from its top-left corner. Each corner is a square of side `r`;
/// inside one, the pixel is kept only within distance `r` of the square's
/// inner corner. Where corner squares overlap the first of top-left,
/// top-right, bottom-left, bottom-right decides. Outside all four the pixel
/// is kept.
pub open spec fn corner_keeps(w: int, h: int, r: int, dx: int, dy: int) -> bool {
    let left = dx < r;
    let right = dx >= w - r;
    let top = dy < r;
    let bottom = dy >= h - r;
    if left && top {
        within_radius(dx - (r - 1), dy - (r - 1), r)
    } else if right && top {
        within_radius(dx - (w - r), dy - (r - 1), r)
    } else if left && bottom {
        within_radius(dx - (r - 1), dy - (h - r), r)
    } else if right && bottom {
        within_radius(dx - (w - r), dy - (h - r), r)
    } else {
        true
    }
}

/// One colour channel scaled by a coverage, rounded down. Coverage beyond
/// full counts as full.
pub open spec fn scaled_channel(channel: int, coverage: u32) -> int {
    let c = if coverage > COVERAGE_FULL { COVERAGE_FULL as int } else { coverage as int };
    (channel * c) / (COVERAGE_FULL as int)
}

/// The colour that text of colour `color` leaves on a pixel it covers by
/// `coverage`: red, green and blue are scaled separately, the top byte is
/// dropped.
pub open spec fn shade(color: u32, coverage: u32) -> u32 {
    let r = scaled_channel((color as int / 0x1_0000) % 0x100, coverage);
    let g = scaled_channel((color as int / 0x100) % 0x100, coverage);
    let b = scaled_channel(color as int % 0x100, coverage);
    (r * 0x1_0000 + g * 0x100 + b) as u32
}

/// One row after a rectangle was filled.
pub open spec fn rect_row(
    row: Seq<u32>,
    py: int,
    x0: int,
    y0: int,
    w: int,
    h: int,
    clip_w: int,
    clip_h: int,
    color: u32,
) -> Seq<u32> {
    Seq::new(
        row.len(),
        |px: int| if rect_covers(x0, y0, w, h, clip_w, clip_h, px, py) {
            color
        } else {
            row[px]
        },
    )
}

/// The frame after the rectangle with corner `(x0, y0)` was filled with
/// `color`, clipped to the frame and to the clip bounds.
pub open spec fn paint_rect(
    frame: Seq<Seq<u32>>,
    x0: int,
    y0: int,
    w: int,
    h: int,
    clip_w: int,
    clip_h: int,
    color: u32,
) -> Seq<Seq<u32>> {
    Seq::new(frame.len(), |py: int| rect_row(frame[py], py, x0, y0, w, h, clip_w, clip_h, color))
}

/// One row after a rounded rectangle was filled.
pub open spec fn rounded_row(
    row: Seq<u32>,
    py: int,
    x0: int,
    y0: int,
    w: int,
    h: int,
    radius: int,
    clip_w: int,
    clip_h: int,
    color: u32,
) -> Seq<u32> {
    Seq::new(
        row.len(),
        |px: int| if rect_covers(x0, y0, w, h, clip_w, clip_h, px, py) && corner_keeps(
            w,
            h,
            radius,
            px - x0,
            py - y0,
        ) {
            color
        } else {
            row[px]
        },
    )
}

/// The frame after the rounded rectangle with corner `(x0, y0)` was filled
/// with `color`, clipped to the frame and to the clip bounds.
pub open spec fn paint_rounded_rect(
    frame: Seq<Seq<u32>>,
    x0: int,
    y0: int,
    w: int,
    h: int,
    radius: int,
    clip_w: int,
    clip_h: int,
    color: u32,
) -> Seq<Seq<u32>> {
    Seq::new(
        frame.len(),
        |py: int| rounded_row(frame[py], py, x0, y0, w, h, radius, clip_w, clip_h, color),
    )
}

/// The frame after one text sample was applied with the text's origin at
/// `(x0, y0)`: a sample covered by less than half, or outside the frame,
/// changes nothing; any other overwrites its pixel with the shaded colour.
pub open spec fn paint_sample(
    frame: Seq<Seq<u32>>,
    x0: int,
    y0: int,
    s: CoverageSample,
    color: u32,
) -> Seq<Seq<u32>> {
    let px = x0 + s.dx;
    let py = y0 + s.dy;
    if s.coverage >= COVERAGE_HALF && 0 <= py < frame.len() && 0 <= px < frame[py].len() {
        frame.update(py, frame[py].update(px, shade(color, s.coverage)))
    } else {
        frame
    }
}

/// The frame after all samples were applied in order.
pub open spec fn paint_samples(
    frame: Seq<Seq<u32>>,
    x0: int,
    y0: int,
    samples: Seq<CoverageSample>,
    color: u32,
) -> Seq<Seq<u32>>
    decreases samples.len(),
{
    if samples.len() == 0 {
        frame
    } else {
        paint_sample(
            paint_samples(frame, x0, y0, samples.drop_last(), color),
            x0,
            y0,
            samples.last(),
            color,
        )
    }
}

/// The model of a buffer in memory is addressable.
pub proof fn lemma_buffer_addressable(buf: Vec<Vec<u32>>)
    ensures
        frame_addressable(frame_of(buf@)),
{
    assert(buf@.len() == buf.len());
    assert forall|i: int| 0 <= i < buf@.len() implies (#[trigger] frame_of(buf@)[i]).len()
        <= usize::MAX by {
        assert(buf@[i]@.len() == buf@[i].len());
    }
}

/// Whether two frames have the same number of rows and, row by row, the
/// same number of pixels.
pub open spec fn same_shape(a: Seq<Seq<u32>>, b: Seq<Seq<u32>>) -> bool {
    &&& a.len() == b.len()
    &&& forall|i: int| 0 <= i < a.len() ==> (#[trigger] a[i]).len() == b[i].len()
}

/// Painting text keeps the frame's shape.
pub proof fn lemma_samples_keep_shape(
    frame: Seq<Seq<u32>>,
    x0: int,
    y0: int,
    samples: Seq<CoverageSample>,
    color: u32,
)
    ensures
        same_shape(paint_samples(frame, x0, y0, samples, color), frame),
    decreases samples.len(),
{
    if samples.len() > 0 {
        lemma_samples_keep_shape(frame, x0, y0, samples.drop_last(), color);
    }
}

/// `v` brought down to the largest machine index where it lies beyond it.
pub open spec fn capped(v: int) -> int {
    if v > usize::MAX {
        usize::MAX as int
    } else {
        v
    }
}

/// Clip bounds beyond every machine index clip nothing: a rectangle is
/// painted the same with each bound brought down to the largest index.
pub proof fn lemma_rect_clip_capped(
    frame: Seq<Seq<u32>>,
    x0: int,
    y0: int,
    w: int,
    h: int,
    clip_w: int,
    clip_h: int,
    color: u32,
)
    requires
        frame_addressable(frame),
    ensures
        paint_rect(frame, x0, y0, w, h, clip_w, clip_h, color) == paint_rect(
            frame,
            x0,
            y0,
            w,
            h,
            capped(clip_w),
            capped(clip_h),
            color,
        ),
{
    let wide = paint_rect(frame, x0, y0, w, h, clip_w, clip_h, color);
    let narrow = paint_rect(frame, x0, y0, w, h, capped(clip_w), capped(clip_h), color);
    assert forall|py: int| 0 <= py < frame.len() implies #[trigger] wide[py] == narrow[py] by {
        assert(wide[py] =~= narrow[py]);
    }
    assert(wide =~= narrow);
}

/// Clip bounds beyond every machine index clip nothing: a rounded rectangle
/// is painted the same with each bound brought down to the largest index.
pub proof fn lemma_rounded_rect_clip_capped(
    frame: Seq<Seq<u32>>,
    x0: int,
    y0: int,
    w: int,
    h: int,
    radius: int,
    clip_w: int,
    clip_h: int,
    color: u32,
)
    requires
        frame_addressable(frame),
    ensures
        paint_rounded_rect(frame, x0, y0, w, h, radius, clip_w, clip_h, color)
            == paint_rounded_rect(
            frame,
            x0,
            y0,
            w,
            h,
            radius,
            capped(clip_w),
            capped(clip_h),
            color,
        ),
{
    let wide = paint_rounded_rect(frame, x0, y0, w, h, radius, clip_w, clip_h, color);
    let narrow = paint_rounded_rect(
        frame,
        x0,
        y0,
        w,
        h,
        radius,
        capped(clip_w),
        capped(clip_h),
        color,
    );
    assert forall|py: int| 0 <= py < frame.len() implies #[trigger] wide[py] == narrow[py] by {
        assert(wide[py] =~= narrow[py]);
    }
    assert(wide =~= narrow);
}

/// A rectangle whose corner lies beyond every machine index paints nothing.
pub proof fn lemma_rect_out_of_reach(
    frame: Seq<Seq<u32>>,
    x0: int,
    y0: int,
    w: int,
    h: int,
    clip_w: int,
    clip_h: int,
    color: u32,
)
    requires
        frame_addressable(frame),
        x0 > usize::MAX || y0 > usize::MAX,
    ensures
        paint_rect(frame, x0, y0, w, h, clip_w, clip_h, color) == frame,
{
    let painted = paint_rect(frame, x0, y0, w, h, clip_w, clip_h, color);
    assert forall|py: int| 0 <= py < frame.len() implies #[trigger] painted[py] == frame[py] by {}
}

/// A rounded rectangle whose corner lies beyond every machine index paints
/// nothing.
pub proof fn lemma_rounded_rect_out_of_reach(
    frame: Seq<Seq<u32>>,
    x0: int,
    y0: int,
    w: int,
    h: int,
    radius: int,
    clip_w: int,
    clip_h: int,
    color: u32,
)
    requires
        frame_addressable(frame),
        x0 > usize::MAX || y0 > usize::MAX,
    ensures
        paint_rounded_rect(frame, x0, y0, w, h, radius, clip_w, clip_h, color) == frame,
{
    let painted = paint_rounded_rect(frame, x0, y0, w, h, radius, clip_w, clip_h, color);
    assert forall|py: int| 0 <= py < frame.len() implies #[trigger] painted[py] == frame[py] by {}
}

/// Text whose origin lies beyond the horizon paints nothing.
pub proof fn lemma_samples_out_of_reach(
    frame: Seq<Seq<u32>>,
    x0: int,
    y0: int,
    samples: Seq<CoverageSample>,
    color: u32,
)
    requires
        frame_addressable(frame),
        x0 > HORIZON || y0 > HORIZON,
    ensures
        paint_samples(frame, x0, y0, samples, color) == frame,
    decreases samples.len(),
{
    if samples.len() > 0 {
        lemma_samples_out_of_reach(frame, x0, y0, samples.drop_last(), color);
    }
}

/// A rounded rectangle of radius zero keeps every pixel.
pub proof fn lemma_zero_radius_keeps_all(w: int, h: int, dx: int, dy: int)
    requires
        0 <= dx < w,
        0 <= dy < h,
    ensures
        corner_keeps(w, h, 0, dx, dy),
{
}

/// A rounded rectangle of radius zero paints exactly the pixels, and exactly
/// the colour, that the plain rectangle of the same position and size paints.
pub proof fn lemma_rounded_rect_zero_radius_is_rect(
    frame: Seq<Seq<u32>>,
    x0: int,
    y0: int,
    w: int,
    h: int,
    clip_w: int,
    clip_h: int,
    color: u32,
)
    ensures
        paint_rounded_rect(frame, x0, y0, w, h, 0, clip_w, clip_h, color) == paint_rect(
            frame,
            x0,
            y0,
            w,
            h,
            clip_w,
            clip_h,
            color,
        ),
{
    let a = paint_rounded_rect(frame, x0, y0, w, h, 0, clip_w, clip_h, color);
    let b = paint_rect(frame, x0, y0, w, h, clip_w, clip_h, color);
    assert forall|py: int| 0 <= py < frame.len() implies #[trigger] a[py] == b[py] by {
        assert forall|px: int| 0 <= px < frame[py].len() implies #[trigger] a[py][px]
            == b[py][px] by {
            if rect_covers(x0, y0, w, h, clip_w, clip_h, px, py) {
                lemma_zero_radius_keeps_all(w, h, px - x0, py - y0);
            }
        }
        assert(a[py] =~= b[py]);
    }
    assert(a =~= b);
}

/// Overwrites the pixels of `row` from `from` up to, not including, `to`.
fn fill_span(row: &mut Vec<u32>, from: usize, to: usize, color: u32)
    requires
        to <= old(row).len(),
    ensures
        final(row)@ == Seq::new(
            old(row)@.len(),
            |px: int| if from <= px < to {
                color
            } else {
                old(row)@[px]
            },
        ),
{
    let mut px: usize = from;
    while px < to
        invariant
            to <= row.len(),
            row.len() == old(row).len(),
            from <= px,
            from <= to ==> px <= to,
            from > to ==> px == from,
            row@ == Seq::new(
                old(row)@.len(),
                |q: int| if from <= q < px {
                    color
                } else {
                    old(row)@[q]
                },
            ),
        decreases to - px,
    {
        row[px] = color;
        px += 1;
    }
}

/// Fills the rectangle with corner `(x0, y0)` and size `w` by `h` with
/// `color`. Pixels outside the buffer, at or beyond column `clip_w`, or at or
/// beyond row `clip_h` are skipped.
pub fn fill_rect(
    buf: &mut Vec<Vec<u32>>,
    x0: usize,
    y0: usize,
    w: usize,
    h: usize,
    clip_w: usize,
    clip_h: usize,
    color: u32,
)
    ensures
        frame_of(final(buf)@) == paint_rect(
            frame_of(old(buf)@),
            x0 as int,
            y0 as int,
            w as int,
            h as int,
            clip_w as int,
            clip_h as int,
            color,
        ),
{
    let ghost before = buf@;
    let rows = buf.len();
    let y_stop = min3(y0.saturating_add(h), clip_h, rows);
    let x_far = x0.saturating_add(w);
    let mut py: usize = y0;
    while py < y_stop
        invariant
            y0 <= py,
            y_stop <= rows,
            rows == buf.len(),
            buf.len() == before.len(),
            x_far == if x0 + w > usize::MAX { usize::MAX as int } else { x0 + w },
            y_stop <= y0 + h,
            y_stop <= clip_h,
            forall|j: int|
                0 <= j < rows ==> (#[trigger] buf@[j])@ == if y0 <= j < py {
                    rect_row(
                        before[j]@,
                        j,
                        x0 as int,
                        y0 as int,
                        w as int,
                        h as int,
                        clip_w as int,
                        clip_h as int,
                        color,
                    )
                } else {
                    before[j]@
                },
        decreases y_stop - py,
    {
        let row = &mut buf[py];
        let x_stop = min3(x_far, clip_w, row.len());
        fill_span(row, x0, x_stop, color);
        py += 1;
    }
    proof {
        let a = frame_of(buf@);
        let b = paint_rect(
            frame_of(before),
            x0 as int,
            y0 as int,
            w as int,
            h as int,
            clip_w as int,
            clip_h as int,
            color,
        );
        assert forall|j: int| 0 <= j < rows implies #[trigger] a[j] == b[j] by {}
    }
}

/// The least of three.
fn min3(a: usize, b: usize, c: usize) -> (m: usize)
    ensures
        m <= a,
        m <= b,
        m <= c,
        m == a || m == b || m == c,
{
    let ab = if a <= b { a } else { b };
    if ab <= c { ab } else { c }
}

/// The square of `a`, which fits where `a` is a machine index.
fn square(a: usize) -> (s: u128)
    ensures
        s == a * a,
{
    assert(a * a <= 0xFFFF_FFFF_FFFF_FFFF * 0xFFFF_FFFF_FFFF_FFFF) by (nonlinear_arith)
        requires
            0 <= a <= 0xFFFF_FFFF_FFFF_FFFF,
    ;
    let wide = a as u128;
    wide * wide
}

/// Whether the point at distance `(a, b)` from a reference point lies within
/// `r` of it, for distances below `r`.
fn within_radius_of(a: usize, b: usize, r: usize) -> (inside: bool)
    requires
        a < r,
        b < r,
    ensures
        inside == within_radius(a as int, b as int, r as int),
        inside == within_radius(-(a as int), b as int, r as int),
        inside == within_radius(a as int, -(b as int), r as int),
        inside == within_radius(-(a as int), -(b as int), r as int),
{
    let a2 = square(a);
    let b2 = square(b);
    let r2 = square(r);
    assert(b * b <= r * r) by (nonlinear_arith)
        requires
            0 <= b < r,
    ;
    assert((-(a as int)) * (-(a as int)) == a * a) by (nonlinear_arith);
    assert((-(b as int)) * (-(b as int)) == b * b) by (nonlinear_arith);
    a2 <= r2 - b2
}

/// Whether a rounded rectangle keeps the pixel at `(dx, dy)` from its
/// top-left corner.
fn corner_keeps_at(w: usize, h: usize, r: usize, dx: usize, dy: usize) -> (keep: bool)
    requires
        dx < w,
        dy < h,
    ensures
        keep == corner_keeps(w as int, h as int, r as int, dx as int, dy as int),
{
    let left = dx < r;
    let right = r >= w || dx >= w - r;
    let top = dy < r;
    let bottom = r >= h || dy >= h - r;
    if left && top {
        within_radius_of(r - 1 - dx, r - 1 - dy, r)
    } else if right && top {
        let a = if r >= w { dx + (r - w) } else { dx - (w - r) };
        within_radius_of(a, r - 1 - dy, r)
    } else if left && bottom {
        let b = if r >= h { dy + (r - h) } else { dy - (h - r) };
        within_radius_of(r - 1 - dx, b, r)
    } else if right && bottom {
        let a = if r >= w { dx + (r - w) } else { dx - (w - r) };
        let b = if r >= h { dy + (r - h) } else { dy - (h - r) };
        within_radius_of(a, b, r)
    } else {
        true
    }
}

/// Overwrites those pixels of `row` from `from` up to, not including, `to`
/// that a rounded rectangle starting at column `from` keeps in its row `dy`.
fn fill_span_rounded(
    row: &mut Vec<u32>,
    from: usize,
    to: usize,
    w: usize,
    h: usize,
    r: usize,
    dy: usize,
    color: u32,
)
    requires
        to <= old(row).len(),
        to <= from + w,
        dy < h,
    ensures
        final(row)@ == Seq::new(
            old(row)@.len(),
            |px: int| if from <= px < to && corner_keeps(
                w as int,
                h as int,
                r as int,
                px - from,
                dy as int,
            ) {
                color
            } else {
                old(row)@[px]
            },
        ),
{
    let mut px: usize = from;
    while px < to
        invariant
            to <= row.len(),
            to <= from + w,
            dy < h,
            row.len() == old(row).len(),
            from <= px,
            from <= to ==> px <= to,
            from > to ==> px == from,
            row@ == Seq::new(
                old(row)@.len(),
                |q: int| if from <= q < px && corner_keeps(
                    w as int,
                    h as int,
                    r as int,
                    q - from,
                    dy as int,
                ) {
                    color
                } else {
                    old(row)@[q]
                },
            ),
        decreases to - px,
    {
        if corner_keeps_at(w, h, r, px - from, dy) {
            row[px] = color;
        }
        px += 1;
    }
}

/// Fills the rounded rectangle with corner `(x0, y0)`, size `w` by `h` and
/// corner radius `radius` with `color`. Pixels outside the buffer, at or
/// beyond column `clip_w`, or at or beyond row `clip_h` are skipped.
pub fn fill_rounded_rect(
    buf: &mut Vec<Vec<u32>>,
    x0: usize,
    y0: usize,
    w: usize,
    h: usize,
    radius: usize,
    clip_w: usize,
    clip_h: usize,
    color: u32,
)
    ensures
        frame_of(final(buf)@) == paint_rounded_rect(
            frame_of(old(buf)@),
            x0 as int,
            y0 as int,
            w as int,
            h as int,
            radius as int,
            clip_w as int,
            clip_h as int,
            color,
        ),
{
    let ghost before = buf@;
    let rows = buf.len();
    let y_stop = min3(y0.saturating_add(h), clip_h, rows);
    let x_far = x0.saturating_add(w);
    let mut py: usize = y0;
    while py < y_stop
        invariant
            y0 <= py,
            y_stop <= rows,
            rows == buf.len(),
            buf.len() == before.len(),
            x_far == if x0 + w > usize::MAX { usize::MAX as int } else { x0 + w },
            y_stop <= y0 + h,
            y_stop <= clip_h,
            forall|j: int|
                0 <= j < rows ==> (#[trigger] buf@[j])@ == if y0 <= j < py {
                    rounded_row(
                        before[j]@,
                        j,
                        x0 as int,
                        y0 as int,
                        w as int,
                        h as int,
                        radius as int,
                        clip_w as int,
                        clip_h as int,
                        color,
                    )
                } else {
                    before[j]@
                },
        decreases y_stop - py,
    {
        let row = &mut buf[py];
        let x_stop = min3(x_far, clip_w, row.len());
        fill_span_rounded(row, x0, x_stop, w, h, radius, py - y0, color);
        py += 1;
    }
    proof {
        let a = frame_of(buf@);
        let b = paint_rounded_rect(
            frame_of(before),
            x0 as int,
            y0 as int,
            w as int,
            h as int,
            radius as int,
            clip_w as int,
            clip_h as int,
            color,
        );
        assert forall|j: int| 0 <= j < rows implies #[trigger] a[j] == b[j] by {}
    }
}

/// One colour channel, at most 255, scaled by a coverage.
fn scale_channel(channel: u32, coverage: u32) -> (c: u32)
    requires
        channel <= 0xFF,
    ensures
        c == scaled_channel(channel as int, coverage),
        c <= 0xFF,
{
    let capped = if coverage > COVERAGE_FULL { COVERAGE_FULL } else { coverage };
    assert(channel * capped <= channel * 0x100_0000 <= 0xFF * 0x100_0000) by (nonlinear_arith)
        requires
            0 <= channel <= 0xFF,
            0 <= capped <= 0x100_0000,
    ;
    (channel as u64 * capped as u64 / COVERAGE_FULL as u64) as u32
}

/// The colour that text of colour `color` leaves on a pixel it covers by
/// `coverage`.
pub fn shade_color(color: u32, coverage: u32) -> (c: u32)
    ensures
        c == shade(color, coverage),
{
    let r = scale_channel(color / 0x1_0000 % 0x100, coverage);
    let g = scale_channel(color / 0x100 % 0x100, coverage);
    let b = scale_channel(color % 0x100, coverage);
    r * 0x1_0000 + g * 0x100 + b
}

/// Paints rasterized text whose origin is `(x0, y0)`: the samples are applied
/// in order, each overwriting its pixel with the text colour scaled by the
/// sample's coverage. Samples covered by less than half, and samples outside
/// the buffer, are skipped.
pub fn apply_samples(
    buf: &mut Vec<Vec<u32>>,
    x0: usize,
    y0: usize,
    samples: &Vec<CoverageSample>,
    color: u32,
)
    ensures
        frame_of(final(buf)@) == paint_samples(
            frame_of(old(buf)@),
            x0 as int,
            y0 as int,
            samples@,
            color,
        ),
{
    apply_samples_from(buf, x0 as u128, y0 as u128, samples, color);
}

/// Paints rasterized text whose origin, anywhere up to the horizon, is
/// `(x0, y0)`.
pub(crate) fn apply_samples_from(
    buf: &mut Vec<Vec<u32>>,
    x0: u128,
    y0: u128,
    samples: &Vec<CoverageSample>,
    color: u32,
)
    requires
        x0 <= HORIZON,
        y0 <= HORIZON,
    ensures
        frame_of(final(buf)@) == paint_samples(
            frame_of(old(buf)@),
            x0 as int,
            y0 as int,
            samples@,
            color,
        ),
{
    let ghost before = frame_of(buf@);
    let mut i: usize = 0;
    while i < samples.len()
        invariant
            i <= samples.len(),
            x0 <= HORIZON,
            y0 <= HORIZON,
            frame_of(buf@) == paint_samples(before, x0 as int, y0 as int, samples@.take(i as int), color),
        decreases samples.len() - i,
    {
        let s = samples[i];
        proof {
            lemma_buffer_addressable(*buf);
            let upto = samples@.take(i + 1);
            assert(upto.drop_last() =~= samples@.take(i as int));
        }
        if s.coverage >= COVERAGE_HALF {
            let px: i128 = x0 as i128 + s.dx as i128;
            let py: i128 = y0 as i128 + s.dy as i128;
            if 0 <= py && py < buf.len() as i128 {
                let row = &mut buf[py as usize];
                if 0 <= px && px < row.len() as i128 {
                    row[px as usize] = shade_color(color, s.coverage);
                }
            }
        }
        i += 1;
    }
    assert(samples@.take(samples.len() as int) =~= samples@);
}

/// Allocates a frame buffer of `height` rows of `width` background pixels.
pub fn new_frame(width: usize, height: usize) -> (buf: Vec<Vec<u32>>)
    ensures
        frame_of(buf@) == blank_frame(width, height),
{
    let mut buf: Vec<Vec<u32>> = Vec::new();
    let mut y: usize = 0;
    while y < height
        invariant
            y <= height,
            buf.len() == y,
            forall|j: int| 0 <= j < y ==> (#[trigger] buf@[j])@ == Seq::new(width as nat, |x: int| 0u32),
        decreases height - y,
    {
        let row = vec![0u32; width];
        buf.push(row);
        y += 1;
    }
    buf
}

/// Sets every pixel to background, keeping the buffer's shape.
pub fn clear_frame(buf: &mut Vec<Vec<u32>>)
    ensures
        frame_of(final(buf)@) == cleared(frame_of(old(buf)@)),
{
    let ghost before = buf@;
    let rows = buf.len();
    let mut y: usize = 0;
    while y < rows
        invariant
            y <= rows,
            rows == buf.len(),
            buf.len() == before.len(),
            forall|j: int|
                0 <= j < rows ==> (#[trigger] buf@[j])@ == if j < y {
                    Seq::new(before[j]@.len(), |x: int| 0u32)
                } else {
                    before[j]@
                },
        decreases rows - y,
    {
        let row = &mut buf[y];
        let len = row.len();
        fill_span(row, 0, len, 0);
        y += 1;
    }
}

/// A copy of a frame buffer.
pub fn copy_frame(buf: &Vec<Vec<u32>>) -> (copy: Vec<Vec<u32>>)
    ensures
        frame_of(copy@) == frame_of(buf@),
{
    let mut copy: Vec<Vec<u32>> = Vec::new();
    let mut y: usize = 0;
    while y < buf.len()
        invariant
            y <= buf.len(),
            copy.len() == y,
            forall|j: int| 0 <= j < y ==> (#[trigger] copy@[j])@ == buf@[j]@,
        decreases buf.len() - y,
    {
        let src = &buf[y];
        let mut row: Vec<u32> = Vec::new();
        let mut x: usize = 0;
        while x < src.len()
            invariant
                x <= src.len(),
                row@ == src@.take(x as int),
            decreases src.len() - x,
        {
            row.push(src[x]);
            x += 1;
        }
        copy.push(row);
        y += 1;
    }
    copy
}

/// The pixels of a frame buffer in one vector, row after row.
pub fn flatten_frame(buf: &Vec<Vec<u32>>) -> (pixels: Vec<u32>)
    ensures
        pixels@ == row_major(frame_of(buf@)),
{
    let ghost frame = frame_of(buf@);
    let mut pixels: Vec<u32> = Vec::new();
    let mut y: usize = 0;
    while y < buf.len()
        invariant
            y <= buf.len(),
            frame == frame_of(buf@),
            pixels@ == row_major(frame.take(y as int)),
        decreases buf.len() - y,
    {
        let src = &buf[y];
        let ghost done = pixels@;
        let mut x: usize = 0;
        while x < src.len()
            invariant
                x <= src.len(),
                pixels@ == done + src@.take(x as int),
            decreases src.len() - x,
        {
            pixels.push(src[x]);
            x += 1;
        }
        proof {
            let upto = frame.take(y + 1);
            assert(upto.drop_last() =~= frame.take(y as int));
        }
        y += 1;
    }
    assert(frame.take(buf.len() as int) =~= frame);
    pixels
}

} // verus!
