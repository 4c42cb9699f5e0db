//! Render scopes: ordered lists of drawing operations bound to a rectangle.
//!
//! A widget records what it wants drawn into a [`RenderScope`]. Recording
//! also measures: the scope's size grows to hold whatever was recorded.
//! Painting replays the operations in recording order into a frame buffer,
//! so that later operations cover earlier ones. A scope that was merged into
//! another is painted at its own offset added to the offset of the scope
//! that holds it.

use vstd::prelude::*;
use crate::raster::{
    CoverageSample, HORIZON, apply_samples_from, blank_frame, capped, clear_frame, cleared,
    copy_frame, fill_rect, fill_rounded_rect, flatten_frame, frame_addressable, frame_of,
    lemma_buffer_addressable, lemma_rect_clip_capped, lemma_rect_out_of_reach,
    lemma_rounded_rect_clip_capped, lemma_rounded_rect_out_of_reach,
    lemma_rounded_rect_zero_radius_is_rect, lemma_samples_keep_shape,
    lemma_samples_out_of_reach, new_frame, paint_rect, paint_rounded_rect, paint_samples,
    rect_covers, row_major, same_shape,
};
use crate::style::{RawTransform, Transform, resolve};

verus! {

/// Rasterized text: the size of its bounding box and the pixels its glyphs
/// touch, as offsets from the box's top-left corner.
#[derive(Debug)]
pub struct TextRaster {
    pub width: usize,
    pub height: usize,
    pub samples: Vec<CoverageSample>,
}

/// One recorded drawing operation.
#[derive(Debug)]
pub enum RenderMethod {
    /// Text, its position, its rasterized form and its colour.
    Text(String, usize, usize, TextRaster, u32),
    /// A filled rectangle: position, width, height, colour.
    Rectangle(usize, usize, usize, usize, u32),
    /// A filled rectangle with rounded corners: position, width, height,
    /// corner radius, colour.
    RoundedRectangle(usize, usize, usize, usize, usize, u32),
    /// A scope recorded earlier, painted as a whole.
    Merge(RenderScope),
}

/// A rectangle, the operations recorded for it, the size of the parent it is
/// laid out in, the largest content size seen, and a frame buffer of its own.
#[derive(Debug)]
pub struct RenderScope {
    transform: RawTransform,
    render_stack: Vec<RenderMethod>,
    parent_width: usize,
    parent_height: usize,
    max_size: (usize, usize),
    buffer: Vec<Vec<u32>>,
}

/// The model of rasterized text.
pub struct TextRasterView {
    pub width: usize,
    pub height: usize,
    pub samples: Seq<CoverageSample>,
}

/// The model of a recorded drawing operation.
pub enum DrawOp {
    Text { text: Seq<char>, x: usize, y: usize, raster: TextRasterView, color: u32 },
    Rectangle { x: usize, y: usize, width: usize, height: usize, color: u32 },
    RoundedRectangle { x: usize, y: usize, width: usize, height: usize, radius: usize, color: u32 },
    Merge { scope: ScopeView },
}

/// The model of a render scope.
pub struct ScopeView {
    /// The resolved rectangle; its size doubles as the content size measured
    /// so far.
    pub transform: RawTransform,
    /// The recorded operations, oldest first.
    pub ops: Seq<DrawOp>,
    pub parent_width: usize,
    pub parent_height: usize,
    /// The largest size the scope has had.
    pub max_size: (usize, usize),
    /// The scope's own frame buffer.
    pub frame: Seq<Seq<u32>>,
}

impl View for TextRaster {
    type V = TextRasterView;

    open spec fn view(&self) -> TextRasterView {
        TextRasterView { width: self.width, height: self.height, samples: self.samples@ }
    }
}

/// The model of one operation.
pub open spec fn op_model(op: RenderMethod) -> DrawOp
    decreases op,
{
    match op {
        RenderMethod::Text(text, x, y, raster, color) => DrawOp::Text {
            text: text@,
            x,
            y,
            raster: raster@,
            color,
        },
        RenderMethod::Rectangle(x, y, width, height, color) => DrawOp::Rectangle {
            x,
            y,
            width,
            height,
            color,
        },
        RenderMethod::RoundedRectangle(x, y, width, height, radius, color) => {
            DrawOp::RoundedRectangle { x, y, width, height, radius, color }
        },
        RenderMethod::Merge(scope) => DrawOp::Merge { scope: scope_model(scope) },
    }
}

/// The models of a list of operations.
pub open spec fn ops_model(ops: Seq<RenderMethod>) -> Seq<DrawOp>
    decreases ops,
{
    Seq::new(
        ops.len(),
        |i: int| if 0 <= i < ops.len() {
            op_model(ops[i])
        } else {
            DrawOp::Rectangle { x: 0, y: 0, width: 0, height: 0, color: 0 }
        },
    )
}

/// The model of a scope.
pub closed spec fn scope_model(scope: RenderScope) -> ScopeView
    decreases scope,
{
    ScopeView {
        transform: scope.transform,
        ops: ops_model(scope.render_stack@),
        parent_width: scope.parent_width,
        parent_height: scope.parent_height,
        max_size: scope.max_size,
        frame: frame_of(scope.buffer@),
    }
}

impl View for RenderMethod {
    type V = DrawOp;

    open spec fn view(&self) -> DrawOp {
        op_model(*self)
    }
}

impl View for RenderScope {
    type V = ScopeView;

    closed spec fn view(&self) -> ScopeView {
        scope_model(*self)
    }
}

/// The larger of two sizes.
pub open spec fn larger(a: usize, b: usize) -> usize {
    if a >= b {
        a
    } else {
        b
    }
}

/// The scope `s` after its size grew to hold content of size `width` by
/// `height`: each side becomes the larger of what it was and what the
/// content needs, and the largest size seen follows.
pub open spec fn grown(s: ScopeView, width: usize, height: usize) -> ScopeView {
    let w = larger(s.transform.width, width);
    let h = larger(s.transform.height, height);
    ScopeView {
        transform: RawTransform { x: s.transform.x, y: s.transform.y, width: w, height: h },
        max_size: (larger(s.max_size.0, w), larger(s.max_size.1, h)),
        ..s
    }
}

/// The scope `s` laid out in a parent of `w` by `h`: where that is the
/// parent size it has, the scope itself; else the scope with the new parent
/// size and a background-filled frame of that size.
pub open spec fn resized(s: ScopeView, w: usize, h: usize) -> ScopeView {
    if w == s.parent_width && h == s.parent_height {
        s
    } else {
        ScopeView { parent_width: w, parent_height: h, frame: blank_frame(w, h), ..s }
    }
}

/// The size of the content that an operation draws: the size of a
/// rectangle, the bounding box of text, the largest size a merged scope has
/// had.
pub open spec fn op_extent(op: DrawOp) -> (usize, usize) {
    match op {
        DrawOp::Text { text, x, y, raster, color } => (raster.width, raster.height),
        DrawOp::Rectangle { x, y, width, height, color } => (width, height),
        DrawOp::RoundedRectangle { x, y, width, height, radius, color } => (width, height),
        DrawOp::Merge { scope } => scope.max_size,
    }
}

/// The scope `s` after `op` was recorded: the operation is appended and the
/// scope grows to hold its content.
pub open spec fn recorded(s: ScopeView, op: DrawOp) -> ScopeView {
    let g = grown(s, op_extent(op).0, op_extent(op).1);
    ScopeView { ops: s.ops.push(op), ..g }
}

/// The size of the content that a list of operations draws: on each axis
/// the largest extent of any of them.
pub open spec fn content_size(ops: Seq<DrawOp>) -> (usize, usize)
    decreases ops.len(),
{
    if ops.len() == 0 {
        (0, 0)
    } else {
        let rest = content_size(ops.drop_last());
        (larger(rest.0, op_extent(ops.last()).0), larger(rest.1, op_extent(ops.last()).1))
    }
}

/// Whether the scope's size is the size of the content recorded in it.
pub open spec fn measures_content(s: ScopeView) -> bool {
    &&& s.transform.width == content_size(s.ops).0
    &&& s.transform.height == content_size(s.ops).1
}

/// Whether the largest size the scope has had holds the content recorded in
/// it.
pub open spec fn holds_content(s: ScopeView) -> bool {
    &&& content_size(s.ops).0 <= s.max_size.0
    &&& content_size(s.ops).1 <= s.max_size.1
}

/// A scope that measures its content still does after another operation
/// was recorded: its size is the largest extent of any operation in it.
pub proof fn lemma_recording_measures_content(s: ScopeView, op: DrawOp)
    requires
        measures_content(s),
    ensures
        measures_content(recorded(s, op)),
{
    assert(recorded(s, op).ops.drop_last() =~= s.ops);
}

/// The largest size a scope has had still holds its content after another
/// operation was recorded.
pub proof fn lemma_recording_holds_content(s: ScopeView, op: DrawOp)
    requires
        holds_content(s),
    ensures
        holds_content(recorded(s, op)),
{
    assert(recorded(s, op).ops.drop_last() =~= s.ops);
}

/// The frame after one operation was painted. `(ox, oy)` is the offset of
/// the scope that holds the operation, every enclosing scope's offset
/// included. Rectangles are clipped to the frame and to the columns left of
/// `clip_w` and the rows above `clip_h`, where the parent that the holding
/// scope is laid out in ends; text is clipped to the frame; a merged scope
/// is painted as a scope inside the offset `(ox, oy)`.
pub open spec fn paint_op(
    op: DrawOp,
    ox: int,
    oy: int,
    clip_w: int,
    clip_h: int,
    frame: Seq<Seq<u32>>,
) -> Seq<Seq<u32>>
    decreases op,
{
    match op {
        DrawOp::Text { text, x, y, raster, color } => paint_samples(
            frame,
            ox + x,
            oy + y,
            raster.samples,
            color,
        ),
        DrawOp::Rectangle { x, y, width, height, color } => paint_rect(
            frame,
            ox + x,
            oy + y,
            width as int,
            height as int,
            clip_w,
            clip_h,
            color,
        ),
        DrawOp::RoundedRectangle { x, y, width, height, radius, color } => paint_rounded_rect(
            frame,
            ox + x,
            oy + y,
            width as int,
            height as int,
            radius as int,
            clip_w,
            clip_h,
            color,
        ),
        DrawOp::Merge { scope } => paint_scope(scope, ox, oy, frame),
    }
}

/// The frame after the operations were painted in order, oldest first.
pub open spec fn paint_ops(
    ops: Seq<DrawOp>,
    ox: int,
    oy: int,
    clip_w: int,
    clip_h: int,
    frame: Seq<Seq<u32>>,
) -> Seq<Seq<u32>>
    decreases ops,
{
    if ops.len() == 0 {
        frame
    } else {
        paint_op(
            ops.last(),
            ox,
            oy,
            clip_w,
            clip_h,
            paint_ops(ops.drop_last(), ox, oy, clip_w, clip_h, frame),
        )
    }
}

/// The frame after a scope was painted inside an enclosing offset of
/// `(ox, oy)`: its operations are painted at its own offset added to the
/// enclosing one. The parent that the scope is laid out in begins at the
/// enclosing offset, so its rectangles are clipped where that parent ends,
/// at column `ox` plus the parent's width and row `oy` plus its height. For
/// a scope painted on its own the enclosing offset is zero.
pub open spec fn paint_scope(s: ScopeView, ox: int, oy: int, frame: Seq<Seq<u32>>) -> Seq<
    Seq<u32>,
>
    decreases s,
{
    paint_ops(
        s.ops,
        ox + s.transform.x,
        oy + s.transform.y,
        ox + s.parent_width,
        oy + s.parent_height,
        frame,
    )
}

/// Painting keeps the frame's shape: no operation adds or removes a row or
/// a pixel.
pub proof fn lemma_paint_keeps_shape(
    ops: Seq<DrawOp>,
    ox: int,
    oy: int,
    clip_w: int,
    clip_h: int,
    frame: Seq<Seq<u32>>,
)
    ensures
        same_shape(paint_ops(ops, ox, oy, clip_w, clip_h, frame), frame),
    decreases ops,
{
    if ops.len() > 0 {
        let below = paint_ops(ops.drop_last(), ox, oy, clip_w, clip_h, frame);
        let after = paint_op(ops.last(), ox, oy, clip_w, clip_h, below);
        lemma_paint_keeps_shape(ops.drop_last(), ox, oy, clip_w, clip_h, frame);
        match ops.last() {
            DrawOp::Text { text, x, y, raster, color } => {
                lemma_samples_keep_shape(below, ox + x, oy + y, raster.samples, color);
            },
            DrawOp::Rectangle { x, y, width, height, color } => {},
            DrawOp::RoundedRectangle { x, y, width, height, radius, color } => {},
            DrawOp::Merge { scope } => {
                lemma_paint_keeps_shape(
                    scope.ops,
                    ox + scope.transform.x,
                    oy + scope.transform.y,
                    ox + scope.parent_width,
                    oy + scope.parent_height,
                    below,
                );
            },
        }
        assert(same_shape(after, below));
    }
}

/// Painter's order: where the operation recorded last is a rectangle, every
/// pixel of the frame that the rectangle covers shows the rectangle's
/// colour, whatever was recorded before.
pub proof fn lemma_last_rectangle_shows(
    ops: Seq<DrawOp>,
    x: usize,
    y: usize,
    width: usize,
    height: usize,
    color: u32,
    ox: int,
    oy: int,
    clip_w: int,
    clip_h: int,
    frame: Seq<Seq<u32>>,
    px: int,
    py: int,
)
    requires
        0 <= py < frame.len(),
        0 <= px < frame[py].len(),
        rect_covers(
            ox + x,
            oy + y,
            width as int,
            height as int,
            clip_w,
            clip_h,
            px,
            py,
        ),
    ensures
        paint_ops(
            ops.push(DrawOp::Rectangle { x, y, width, height, color }),
            ox,
            oy,
            clip_w,
            clip_h,
            frame,
        )[py][px] == color,
{
    let all = ops.push(DrawOp::Rectangle { x, y, width, height, color });
    let below = paint_ops(ops, ox, oy, clip_w, clip_h, frame);
    assert(all.drop_last() =~= ops);
    lemma_paint_keeps_shape(ops, ox, oy, clip_w, clip_h, frame);
    assert(paint_ops(all, ox, oy, clip_w, clip_h, frame) == paint_op(
        all.last(),
        ox,
        oy,
        clip_w,
        clip_h,
        below,
    ));
}

/// A pixel that the operation recorded last does not cover shows what the
/// operations before it left there, where that operation is a rectangle.
pub proof fn lemma_earlier_ops_show_beside_last_rectangle(
    ops: Seq<DrawOp>,
    x: usize,
    y: usize,
    width: usize,
    height: usize,
    color: u32,
    ox: int,
    oy: int,
    clip_w: int,
    clip_h: int,
    frame: Seq<Seq<u32>>,
    px: int,
    py: int,
)
    requires
        0 <= py < frame.len(),
        0 <= px < frame[py].len(),
        !rect_covers(
            ox + x,
            oy + y,
            width as int,
            height as int,
            clip_w,
            clip_h,
            px,
            py,
        ),
    ensures
        paint_ops(
            ops.push(DrawOp::Rectangle { x, y, width, height, color }),
            ox,
            oy,
            clip_w,
            clip_h,
            frame,
        )[py][px] == paint_ops(ops, ox, oy, clip_w, clip_h, frame)[py][px],
{
    let all = ops.push(DrawOp::Rectangle { x, y, width, height, color });
    let below = paint_ops(ops, ox, oy, clip_w, clip_h, frame);
    assert(all.drop_last() =~= ops);
    lemma_paint_keeps_shape(ops, ox, oy, clip_w, clip_h, frame);
    assert(paint_ops(all, ox, oy, clip_w, clip_h, frame) == paint_op(
        all.last(),
        ox,
        oy,
        clip_w,
        clip_h,
        below,
    ));
}

/// Offsets accumulate: a merged scope is painted as its own operations at
/// its own offset added to the offset of the scope that holds it, clipped
/// where its own parent, which begins at the holding scope's offset, ends.
pub proof fn lemma_merge_paints_at_summed_offset(
    scope: ScopeView,
    ox: int,
    oy: int,
    clip_w: int,
    clip_h: int,
    frame: Seq<Seq<u32>>,
)
    ensures
        paint_op(DrawOp::Merge { scope }, ox, oy, clip_w, clip_h, frame) == paint_ops(
            scope.ops,
            ox + scope.transform.x,
            oy + scope.transform.y,
            ox + scope.parent_width,
            oy + scope.parent_height,
            frame,
        ),
{
}

/// A rounded rectangle of radius zero is painted exactly as the plain
/// rectangle of the same position, size and colour.
pub proof fn lemma_rounded_op_zero_radius_paints_as_rect(
    x: usize,
    y: usize,
    width: usize,
    height: usize,
    color: u32,
    ox: int,
    oy: int,
    clip_w: int,
    clip_h: int,
    frame: Seq<Seq<u32>>,
)
    ensures
        paint_op(
            DrawOp::RoundedRectangle { x, y, width, height, radius: 0, color },
            ox,
            oy,
            clip_w,
            clip_h,
            frame,
        ) == paint_op(DrawOp::Rectangle { x, y, width, height, color }, ox, oy, clip_w, clip_h, frame),
{
    lemma_rounded_rect_zero_radius_is_rect(
        frame,
        ox + x,
        oy + y,
        width as int,
        height as int,
        clip_w,
        clip_h,
        color,
    );
}

/// Operations held by a scope whose offset lies beyond the horizon paint
/// nothing.
pub proof fn lemma_ops_out_of_reach(
    ops: Seq<DrawOp>,
    ox: int,
    oy: int,
    clip_w: int,
    clip_h: int,
    frame: Seq<Seq<u32>>,
)
    requires
        frame_addressable(frame),
        ox > HORIZON || oy > HORIZON,
    ensures
        paint_ops(ops, ox, oy, clip_w, clip_h, frame) == frame,
    decreases ops,
{
    if ops.len() > 0 {
        lemma_ops_out_of_reach(ops.drop_last(), ox, oy, clip_w, clip_h, frame);
        match ops.last() {
            DrawOp::Text { text, x, y, raster, color } => {
                lemma_samples_out_of_reach(frame, ox + x, oy + y, raster.samples, color);
            },
            DrawOp::Rectangle { x, y, width, height, color } => {
                lemma_rect_out_of_reach(
                    frame,
                    ox + x,
                    oy + y,
                    width as int,
                    height as int,
                    clip_w,
                    clip_h,
                    color,
                );
            },
            DrawOp::RoundedRectangle { x, y, width, height, radius, color } => {
                lemma_rounded_rect_out_of_reach(
                    frame,
                    ox + x,
                    oy + y,
                    width as int,
                    height as int,
                    radius as int,
                    clip_w,
                    clip_h,
                    color,
                );
            },
            DrawOp::Merge { scope } => {
                lemma_ops_out_of_reach(
                    scope.ops,
                    ox + scope.transform.x,
                    oy + scope.transform.y,
                    ox + scope.parent_width,
                    oy + scope.parent_height,
                    frame,
                );
            },
        }
        assert(paint_op(ops.last(), ox, oy, clip_w, clip_h, frame) == frame);
    }
}

/// Paints the recorded operations of a scope whose offset, every enclosing
/// offset included, is `(ox, oy)`.
fn paint_stack(
    ops: &Vec<RenderMethod>,
    ox: u128,
    oy: u128,
    clip_w: u128,
    clip_h: u128,
    buf: &mut Vec<Vec<u32>>,
)
    requires
        ox <= HORIZON,
        oy <= HORIZON,
    ensures
        frame_of(final(buf)@) == paint_ops(
            ops_model(ops@),
            ox as int,
            oy as int,
            clip_w as int,
            clip_h as int,
            frame_of(old(buf)@),
        ),
    decreases ops,
{
    let ghost before = frame_of(buf@);
    let ghost models = ops_model(ops@);
    let within_w = index_or_largest(clip_w);
    let within_h = index_or_largest(clip_h);
    let mut i: usize = 0;
    while i < ops.len()
        invariant
            i <= ops.len(),
            ox <= HORIZON,
            oy <= HORIZON,
            within_w == capped(clip_w as int),
            within_h == capped(clip_h as int),
            models == ops_model(ops@),
            frame_of(buf@) == paint_ops(
                models.take(i as int),
                ox as int,
                oy as int,
                clip_w as int,
                clip_h as int,
                before,
            ),
        decreases ops.len() - i,
    {
        let ghost frame = frame_of(buf@);
        proof {
            lemma_buffer_addressable(*buf);
            let upto = models.take(i + 1);
            assert(upto.drop_last() =~= models.take(i as int));
            assert(paint_ops(upto, ox as int, oy as int, clip_w as int, clip_h as int, before)
                == paint_op(
                op_model(ops@[i as int]),
                ox as int,
                oy as int,
                clip_w as int,
                clip_h as int,
                frame,
            ));
        }
        match &ops[i] {
            RenderMethod::Text(_, x, y, raster, color) => {
                let px = ox + *x as u128;
                let py = oy + *y as u128;
                if px <= HORIZON && py <= HORIZON {
                    apply_samples_from(buf, px, py, &raster.samples, *color);
                } else {
                    proof {
                        lemma_samples_out_of_reach(frame, ox + *x, oy + *y, raster.samples@, *color);
                    }
                }
            },
            RenderMethod::Rectangle(x, y, width, height, color) => {
                let px = ox + *x as u128;
                let py = oy + *y as u128;
                if px <= usize::MAX as u128 && py <= usize::MAX as u128 {
                    proof {
                        lemma_rect_clip_capped(
                            frame,
                            px as int,
                            py as int,
                            *width as int,
                            *height as int,
                            clip_w as int,
                            clip_h as int,
                            *color,
                        );
                    }
                    fill_rect(
                        buf,
                        px as usize,
                        py as usize,
                        *width,
                        *height,
                        within_w,
                        within_h,
                        *color,
                    );
                } else {
                    proof {
                        lemma_rect_out_of_reach(
                            frame,
                            ox + *x,
                            oy + *y,
                            *width as int,
                            *height as int,
                            clip_w as int,
                            clip_h as int,
                            *color,
                        );
                    }
                }
            },
            RenderMethod::RoundedRectangle(x, y, width, height, radius, color) => {
                let px = ox + *x as u128;
                let py = oy + *y as u128;
                if px <= usize::MAX as u128 && py <= usize::MAX as u128 {
                    proof {
                        lemma_rounded_rect_clip_capped(
                            frame,
                            px as int,
                            py as int,
                            *width as int,
                            *height as int,
                            *radius as int,
                            clip_w as int,
                            clip_h as int,
                            *color,
                        );
                    }
                    fill_rounded_rect(
                        buf,
                        px as usize,
                        py as usize,
                        *width,
                        *height,
                        *radius,
                        within_w,
                        within_h,
                        *color,
                    );
                } else {
                    proof {
                        lemma_rounded_rect_out_of_reach(
                            frame,
                            ox + *x,
                            oy + *y,
                            *width as int,
                            *height as int,
                            *radius as int,
                            clip_w as int,
                            clip_h as int,
                            *color,
                        );
                    }
                }
            },
            RenderMethod::Merge(scope) => {
                let px = ox + scope.transform.x as u128;
                let py = oy + scope.transform.y as u128;
                if px <= HORIZON && py <= HORIZON {
                    paint_stack(
                        &scope.render_stack,
                        px,
                        py,
                        ox + scope.parent_width as u128,
                        oy + scope.parent_height as u128,
                        buf,
                    );
                } else {
                    proof {
                        lemma_ops_out_of_reach(
                            ops_model(scope.render_stack@),
                            ox + scope.transform.x,
                            oy + scope.transform.y,
                            ox + scope.parent_width,
                            oy + scope.parent_height,
                            frame,
                        );
                    }
                }
            },
        }
        i += 1;
    }
    assert(models.take(ops.len() as int) =~= models);
}

/// `v` as a machine index, or the largest one where `v` lies beyond it.
fn index_or_largest(v: u128) -> (index: usize)
    ensures
        index == capped(v as int),
{
    if v > usize::MAX as u128 {
        usize::MAX
    } else {
        v as usize
    }
}

/// Appending an operation appends its model.
proof fn lemma_push_model(ops: Seq<RenderMethod>, op: RenderMethod)
    ensures
        ops_model(ops.push(op)) == ops_model(ops).push(op_model(op)),
{
}

impl TextRaster {
    /// A copy of this rasterized text.
    pub fn clone(&self) -> (copy: TextRaster)
        ensures
            copy@ == self@,
    {
        let mut samples: Vec<CoverageSample> = Vec::new();
        let mut i: usize = 0;
        while i < self.samples.len()
            invariant
                i <= self.samples.len(),
                samples@ == self.samples@.take(i as int),
            decreases self.samples.len() - i,
        {
            samples.push(self.samples[i]);
            i += 1;
        }
        assert(samples@ =~= self.samples@);
        TextRaster { width: self.width, height: self.height, samples }
    }
}

impl RenderScope {
    /// An empty scope laid out in a parent of `w` by `h` pixels, with a
    /// background-filled frame buffer of that size.
    pub fn new(w: usize, h: usize) -> (scope: RenderScope)
        ensures
            scope@ == (ScopeView {
                transform: RawTransform { x: 0, y: 0, width: 0, height: 0 },
                ops: Seq::empty(),
                parent_width: w,
                parent_height: h,
                max_size: (0, 0),
                frame: blank_frame(w, h),
            }),
    {
        let scope = RenderScope {
            buffer: new_frame(w, h),
            render_stack: Vec::new(),
            parent_width: w,
            parent_height: h,
            transform: RawTransform::new(),
            max_size: (0, 0),
        };
        assert(scope@.ops =~= Seq::empty());
        scope
    }

    /// Records text at `(x, y)` whose rasterized form is `raster`, and grows
    /// the scope to hold the text's bounding box. With the transparent
    /// colour `0` nothing is recorded and nothing grows.
    pub fn draw_text(&mut self, x: usize, y: usize, raster: TextRaster, text: &str, color: u32)
        ensures
            color == 0 ==> final(self)@ == old(self)@,
            color != 0 ==> final(self)@ == recorded(
                old(self)@,
                DrawOp::Text { text: text@, x, y, raster: raster@, color },
            ),
    {
        if color == 0 {
            return ;
        }
        let w = raster.width;
        let h = raster.height;
        let op = RenderMethod::Text(text.to_owned(), x, y, raster, color);
        proof {
            lemma_push_model(self.render_stack@, op);
        }
        self.render_stack.push(op);
        self.transform.width = larger_of(self.transform.width, w);
        self.transform.height = larger_of(self.transform.height, h);
        self.update_size();
    }

    /// Records a filled rectangle and grows the scope to hold its width and
    /// height. With the transparent colour `0` nothing is recorded and
    /// nothing grows.
    pub fn draw_rect(&mut self, x: usize, y: usize, width: usize, height: usize, color: u32)
        ensures
            color == 0 ==> final(self)@ == old(self)@,
            color != 0 ==> final(self)@ == recorded(
                old(self)@,
                DrawOp::Rectangle { x, y, width, height, color },
            ),
    {
        if color == 0 {
            return ;
        }
        let op = RenderMethod::Rectangle(x, y, width, height, color);
        proof {
            lemma_push_model(self.render_stack@, op);
        }
        self.render_stack.push(op);
        self.transform.width = larger_of(self.transform.width, width);
        self.transform.height = larger_of(self.transform.height, height);
        self.update_size();
    }

    /// Records a filled rectangle with rounded corners and grows the scope
    /// to hold its width and height. A radius of zero records the plain
    /// rectangle. With the transparent colour `0` nothing is recorded and
    /// nothing grows.
    pub fn draw_rect_rounded(
        &mut self,
        x: usize,
        y: usize,
        width: usize,
        height: usize,
        radius: usize,
        color: u32,
    )
        ensures
            color == 0 ==> final(self)@ == old(self)@,
            color != 0 && radius == 0 ==> final(self)@ == recorded(
                old(self)@,
                DrawOp::Rectangle { x, y, width, height, color },
            ),
            color != 0 && radius != 0 ==> final(self)@ == recorded(
                old(self)@,
                DrawOp::RoundedRectangle { x, y, width, height, radius, color },
            ),
    {
        if color == 0 {
            return ;
        }
        if radius == 0 {
            self.draw_rect(x, y, width, height, color);
            return ;
        }
        let op = RenderMethod::RoundedRectangle(x, y, width, height, radius, color);
        proof {
            lemma_push_model(self.render_stack@, op);
        }
        self.render_stack.push(op);
        self.transform.width = larger_of(self.transform.width, width);
        self.transform.height = larger_of(self.transform.height, height);
        self.update_size();
    }

    /// Records a whole scope as one operation and grows this scope to hold
    /// the largest size the merged scope has had.
    pub fn merge(&mut self, scope: RenderScope)
        ensures
            final(self)@ == recorded(old(self)@, DrawOp::Merge { scope: scope@ }),
    {
        let (w, h) = scope.get_max_size();
        let op = RenderMethod::Merge(scope);
        proof {
            lemma_push_model(self.render_stack@, op);
        }
        self.render_stack.push(op);
        self.transform.width = larger_of(self.transform.width, w);
        self.transform.height = larger_of(self.transform.height, h);
        self.update_size();
    }

    /// Paints the recorded operations into the scope's own frame buffer.
    pub fn draw(&mut self)
        ensures
            final(self)@ == (ScopeView {
                frame: paint_scope(old(self)@, 0, 0, old(self)@.frame),
                ..old(self)@
            }),
    {
        paint_stack(
            &self.render_stack,
            self.transform.x as u128,
            self.transform.y as u128,
            self.parent_width as u128,
            self.parent_height as u128,
            &mut self.buffer,
        );
    }

    /// Paints the recorded operations into `buf`, oldest first, at the
    /// scope's resolved offset. The buffer keeps its shape; pixels outside
    /// it are skipped.
    pub fn draw_buf(&self, buf: &mut Vec<Vec<u32>>)
        ensures
            frame_of(final(buf)@) == paint_scope(self@, 0, 0, frame_of(old(buf)@)),
            same_shape(frame_of(final(buf)@), frame_of(old(buf)@)),
    {
        proof {
            lemma_paint_keeps_shape(
                self@.ops,
                self@.transform.x as int,
                self@.transform.y as int,
                self@.parent_width as int,
                self@.parent_height as int,
                frame_of(buf@),
            );
        }
        paint_stack(
            &self.render_stack,
            self.transform.x as u128,
            self.transform.y as u128,
            self.parent_width as u128,
            self.parent_height as u128,
            buf,
        );
    }

    /// Resolves the layout rule against the parent size and the content size
    /// measured so far, sizes first and position second.
    pub fn set_transform(&mut self, transform: &Transform)
        ensures
            final(self)@ == (ScopeView {
                transform: resolve(
                    *transform,
                    old(self)@.parent_width,
                    old(self)@.parent_height,
                    old(self)@.transform,
                ),
                ..old(self)@
            }),
    {
        transform.use_dimensions(&mut self.transform);
        transform.use_position(self.parent_width, self.parent_height, &mut self.transform);
    }

    /// The resolved rectangle.
    pub fn get_transform(&mut self) -> (t: RawTransform)
        ensures
            t == old(self)@.transform,
            final(self)@ == old(self)@,
    {
        self.transform
    }

    /// Raises the largest size seen to the current size.
    pub fn update_size(&mut self)
        ensures
            final(self)@ == (ScopeView {
                max_size: (
                    larger(old(self)@.max_size.0, old(self)@.transform.width),
                    larger(old(self)@.max_size.1, old(self)@.transform.height),
                ),
                ..old(self)@
            }),
    {
        self.max_size.0 = larger_of(self.max_size.0, self.transform.width);
        self.max_size.1 = larger_of(self.max_size.1, self.transform.height);
    }

    /// Forgets the recorded operations and the measured size. The position,
    /// the largest size seen and the frame buffer stay.
    pub fn clear(&mut self)
        ensures
            final(self)@ == (ScopeView {
                ops: Seq::empty(),
                transform: RawTransform {
                    x: old(self)@.transform.x,
                    y: old(self)@.transform.y,
                    width: 0,
                    height: 0,
                },
                ..old(self)@
            }),
    {
        self.render_stack.clear();
        self.transform.width = 0;
        self.transform.height = 0;
        assert(self@.ops =~= Seq::empty());
    }

    /// The current size.
    pub fn get_size(&self) -> (size: (usize, usize))
        ensures
            size == (self@.transform.width, self@.transform.height),
    {
        (self.transform.width, self.transform.height)
    }

    /// The largest size the scope has had.
    pub fn get_max_size(&self) -> (size: (usize, usize))
        ensures
            size == self@.max_size,
    {
        self.max_size
    }

    /// The current size, with the parent's size standing in on each axis
    /// where the current size is zero.
    pub fn get_size_or_parent(&self) -> (size: (usize, usize))
        ensures
            size.0 == if self@.transform.width > 0 {
                self@.transform.width
            } else {
                self@.parent_width
            },
            size.1 == if self@.transform.height > 0 {
                self@.transform.height
            } else {
                self@.parent_height
            },
    {
        (
            if self.transform.width > 0 {
                self.transform.width
            } else {
                self.parent_width
            },
            if self.transform.height > 0 {
                self.transform.height
            } else {
                self.parent_height
            },
        )
    }

    /// The size of the parent the scope is laid out in.
    pub fn get_parent_size(&self) -> (size: (usize, usize))
        ensures
            size == (self@.parent_width, self@.parent_height),
    {
        (self.parent_width, self.parent_height)
    }

    /// The scope's frame buffer as one vector, row after row.
    pub fn get_buffer1d(&self) -> (pixels: Vec<u32>)
        ensures
            pixels@ == row_major(self@.frame),
    {
        flatten_frame(&self.buffer)
    }

    /// A copy of the scope's frame buffer.
    pub fn get_buffer(&self) -> (buf: Vec<Vec<u32>>)
        ensures
            frame_of(buf@) == self@.frame,
            buf@.len() == self@.frame.len(),
            forall|y: int| 0 <= y < buf@.len() ==> (#[trigger] buf@[y])@ == self@.frame[y],
    {
        copy_frame(&self.buffer)
    }

    /// The scope's frame buffer, to be changed in place. Nothing else of the
    /// scope changes.
    pub fn get_buffer_mut(&mut self) -> (buf: &mut Vec<Vec<u32>>)
        ensures
            frame_of(buf@) == old(self)@.frame,
            final(self)@ == (ScopeView { frame: frame_of(final(buf)@), ..old(self)@ }),
    {
        &mut self.buffer
    }

    /// Sets every pixel of the scope's frame buffer to background.
    pub fn clear_buffer(&mut self)
        ensures
            final(self)@ == (ScopeView { frame: cleared(old(self)@.frame), ..old(self)@ }),
    {
        clear_frame(&mut self.buffer);
    }

    /// Adopts a new parent size: where it differs from the current one the
    /// frame buffer is replaced by a background-filled one of the new size;
    /// where it is the same nothing changes.
    pub fn resize_if_needed(&mut self, w: usize, h: usize)
        ensures
            final(self)@ == resized(old(self)@, w, h),
    {
        if w != self.parent_width || h != self.parent_height {
            self.buffer = new_frame(w, h);
            self.parent_width = w;
            self.parent_height = h;
        }
    }

    /// A copy of the scope: its rectangle, its recorded operations with
    /// every merged scope, and its frame buffer.
    pub fn clone(&self) -> (copy: RenderScope)
        ensures
            copy@ == self@,
        decreases self,
    {
        let mut stack: Vec<RenderMethod> = Vec::new();
        let mut i: usize = 0;
        while i < self.render_stack.len()
            invariant
                i <= self.render_stack.len(),
                stack.len() == i,
                forall|j: int|
                    0 <= j < i ==> op_model(#[trigger] stack@[j]) == op_model(self.render_stack@[j]),
            decreases self.render_stack.len() - i,
        {
            let op = match &self.render_stack[i] {
                RenderMethod::Text(text, x, y, raster, color) => RenderMethod::Text(
                    text.clone(),
                    *x,
                    *y,
                    raster.clone(),
                    *color,
                ),
                RenderMethod::Rectangle(x, y, w, h, color) => RenderMethod::Rectangle(
                    *x,
                    *y,
                    *w,
                    *h,
                    *color,
                ),
                RenderMethod::RoundedRectangle(x, y, w, h, radius, color) => {
                    RenderMethod::RoundedRectangle(*x, *y, *w, *h, *radius, *color)
                },
                RenderMethod::Merge(scope) => RenderMethod::Merge(scope.clone()),
            };
            stack.push(op);
            i += 1;
        }
        let copy = RenderScope {
            transform: self.transform,
            render_stack: stack,
            parent_width: self.parent_width,
            parent_height: self.parent_height,
            max_size: self.max_size,
            buffer: copy_frame(&self.buffer),
        };
        assert(copy@.ops =~= self@.ops);
        copy
    }
}

/// The larger of two sizes.
fn larger_of(a: usize, b: usize) -> (m: usize)
    ensures
        m == larger(a, b),
{
    if a >= b {
        a
    } else {
        b
    }
}

} // verus!
