//! Layout rules and their resolution into absolute pixel rectangles.
//!
//! A [`Transform`] is declarative: it names a position and a size per axis
//! without reference to any parent. Resolution turns it into a
//! [`RawTransform`] in two phases, sizes first and positions second, so that
//! centring and end-anchoring can use the size that the first phase settled.

use vstd::prelude::*;

verus! {

/// An absolute rectangle in pixels.
#[derive(Debug, Clone, Copy, PartialEq, Eq, Structural)]
pub struct RawTransform {
    pub x: usize,
    pub y: usize,
    pub width: usize,
    pub height: usize,
}

/// Where a rectangle sits along one axis of its parent.
#[derive(Debug, Clone, Copy, PartialEq, Eq, Structural)]
pub enum Position {
    /// A fixed offset from the parent's origin.
    Const(usize),
    /// Centred in the parent.
    Center,
    /// Flush with the parent's far edge.
    End,
}

/// How large a rectangle is along one axis.
#[derive(Debug, Clone, Copy, PartialEq, Eq, Structural)]
pub enum Dimension {
    /// As large as the content that was drawn.
    Auto,
    /// A fixed size.
    Const(usize),
}

/// A layout rule: position, signed margin and size for both axes.
#[derive(Debug, Clone, Copy, PartialEq, Eq, Structural)]
pub struct Transform {
    pub x: Position,
    pub y: Position,
    pub mx: i32,
    pub my: i32,
    pub width: Dimension,
    pub height: Dimension,
}

/// The size that `d` resolves to when the content drawn so far measures
/// `current`.
pub open spec fn resolved_dimension(d: Dimension, current: usize) -> usize {
    match d {
        Dimension::Auto => current,
        Dimension::Const(n) => n,
    }
}

/// The signed offset of a rectangle of the given size inside a parent of the
/// given size, before any margin. A rectangle larger than its parent is
/// centred with a negative offset, rounded towards zero.
pub open spec fn anchored_offset(p: Position, size: int, parent: int) -> int {
    match p {
        Position::Const(n) => n as int,
        Position::Center => if parent >= size {
            (parent - size) / 2
        } else {
            -((size - parent) / 2)
        },
        Position::End => parent - size,
    }
}

/// `v` brought into the range of `usize`.
pub open spec fn clamp_to_usize(v: int) -> usize {
    if v < 0 {
        0
    } else if v > usize::MAX {
        usize::MAX
    } else {
        v as usize
    }
}

/// The offset that `p` resolves to: the anchored offset plus the margin `m`,
/// computed over the integers and then clamped into `usize`, so that a
/// resolved offset is never negative.
pub open spec fn resolved_position(p: Position, size: usize, parent: usize, m: i32) -> usize {
    clamp_to_usize(anchored_offset(p, size as int, parent as int) + m)
}

/// The dimension phase of resolution applied to `raw`.
pub open spec fn with_dimensions(rule: Transform, raw: RawTransform) -> RawTransform {
    RawTransform {
        x: raw.x,
        y: raw.y,
        width: resolved_dimension(rule.width, raw.width),
        height: resolved_dimension(rule.height, raw.height),
    }
}

/// The position phase of resolution applied to `raw`, whose sizes are taken
/// as settled.
pub open spec fn with_position(
    rule: Transform,
    parent_width: usize,
    parent_height: usize,
    raw: RawTransform,
) -> RawTransform {
    RawTransform {
        x: resolved_position(rule.x, raw.width, parent_width, rule.mx),
        y: resolved_position(rule.y, raw.height, parent_height, rule.my),
        width: raw.width,
        height: raw.height,
    }
}

/// Full resolution: the dimension phase followed by the position phase.
/// `raw` carries the content size measured so far in its `width` and
/// `height`; its `x` and `y` play no part.
pub open spec fn resolve(
    rule: Transform,
    parent_width: usize,
    parent_height: usize,
    raw: RawTransform,
) -> RawTransform {
    with_position(rule, parent_width, parent_height, with_dimensions(rule, raw))
}

impl Transform {
    /// The default rule: top-left corner, no margin, sized by content.
    pub fn new() -> (t: Transform)
        ensures
            t == (Transform {
                x: Position::Const(0),
                y: Position::Const(0),
                mx: 0,
                my: 0,
                width: Dimension::Auto,
                height: Dimension::Auto,
            }),
    {
        Transform {
            x: Position::Const(0),
            y: Position::Const(0),
            mx: 0,
            my: 0,
            width: Dimension::Auto,
            height: Dimension::Auto,
        }
    }

    /// A rule that centres on both axes, with no margin, sized by content.
    pub fn center() -> (t: Transform)
        ensures
            t == (Transform {
                x: Position::Center,
                y: Position::Center,
                mx: 0,
                my: 0,
                width: Dimension::Auto,
                height: Dimension::Auto,
            }),
    {
        Transform {
            x: Position::Center,
            y: Position::Center,
            mx: 0,
            my: 0,
            width: Dimension::Auto,
            height: Dimension::Auto,
        }
    }

    /// The same rule anchored to the parent's bottom edge.
    pub fn bottom(self) -> (t: Transform)
        ensures
            t == (Transform { y: Position::End, ..self }),
    {
        let mut t = self;
        t.y = Position::End;
        t
    }

    /// The same rule with the margins replaced by `x` and `y`.
    pub fn margin(self, x: i32, y: i32) -> (t: Transform)
        ensures
            t == (Transform { mx: x, my: y, ..self }),
    {
        let mut t = self;
        t.mx = x;
        t.my = y;
        t
    }

    /// The same rule with a fixed size on both axes.
    pub fn dimensions(self, width: usize, height: usize) -> (t: Transform)
        ensures
            t == (Transform {
                width: Dimension::Const(width),
                height: Dimension::Const(height),
                ..self
            }),
    {
        let mut t = self;
        t.width = Dimension::Const(width);
        t.height = Dimension::Const(height);
        t
    }

    /// Dimension phase: fixed sizes overwrite `raw`'s sizes, `Auto` leaves
    /// them at the content size they already hold. The position is untouched.
    pub fn use_dimensions(&self, raw: &mut RawTransform)
        ensures
            *final(raw) == with_dimensions(*self, *old(raw)),
    {
        self.width.use_dimension(&mut raw.width);
        self.height.use_dimension(&mut raw.height);
    }

    /// Position phase: places `raw` inside a parent of the given size, using
    /// the sizes that `raw` holds. The sizes are untouched.
    pub fn use_position(&self, parent_width: usize, parent_height: usize, raw: &mut RawTransform)
        ensures
            *final(raw) == with_position(*self, parent_width, parent_height, *old(raw)),
    {
        let width = raw.width;
        let height = raw.height;
        self.x.use_position(width, parent_width, self.mx, &mut raw.x);
        self.y.use_position(height, parent_height, self.my, &mut raw.y);
    }
}

impl RawTransform {
    /// The empty rectangle at the origin.
    pub fn new() -> (r: RawTransform)
        ensures
            r == (RawTransform { x: 0, y: 0, width: 0, height: 0 }),
    {
        RawTransform { x: 0, y: 0, width: 0, height: 0 }
    }
}

impl Dimension {
    /// Writes the resolved size into `r`, which holds the content size on
    /// entry.
    pub fn use_dimension(&self, r: &mut usize)
        ensures
            *final(r) == resolved_dimension(*self, *old(r)),
    {
        match self {
            Dimension::Auto => {},
            Dimension::Const(n) => {
                *r = *n;
            },
        }
    }
}

impl Position {
    /// Writes into `r` the offset of a rectangle of size `size` inside a
    /// parent of size `parent`, shifted by the margin `m`. The previous value
    /// of `r` plays no part.
    pub fn use_position(&self, size: usize, parent: usize, m: i32, r: &mut usize)
        ensures
            *final(r) == resolved_position(*self, size, parent, m),
    {
        let base: i128 = match self {
            Position::Const(n) => *n as i128,
            Position::Center => if parent >= size {
                ((parent - size) / 2) as i128
            } else {
                -(((size - parent) / 2) as i128)
            },
            Position::End => parent as i128 - size as i128,
        };
        let shifted: i128 = base + m as i128;
        if shifted < 0 {
            *r = 0;
        } else if shifted > usize::MAX as i128 {
            *r = usize::MAX;
        } else {
            *r = shifted as usize;
        }
    }
}

/// Resolution depends on nothing but the rule, the parent size and the
/// content size: two rectangles that carry the same content size resolve to
/// the same rectangle, whatever positions they held before.
pub proof fn lemma_resolve_depends_on_content_size(
    rule: Transform,
    parent_width: usize,
    parent_height: usize,
    a: RawTransform,
    b: RawTransform,
)
    requires
        a.width == b.width,
        a.height == b.height,
    ensures
        resolve(rule, parent_width, parent_height, a) == resolve(
            rule,
            parent_width,
            parent_height,
            b,
        ),
{
}

/// Resolution is idempotent: resolving an already resolved rectangle again,
/// under the same rule and parent size, changes nothing.
pub proof fn lemma_resolve_idempotent(
    rule: Transform,
    parent_width: usize,
    parent_height: usize,
    raw: RawTransform,
)
    ensures
        resolve(
            rule,
            parent_width,
            parent_height,
            resolve(rule, parent_width, parent_height, raw),
        ) == resolve(rule, parent_width, parent_height, raw),
{
}

/// Where no clamping is needed the resolved offset is the plain formula:
/// the anchored offset plus the margin.
pub proof fn lemma_resolved_position_exact(p: Position, size: usize, parent: usize, m: i32)
    requires
        0 <= anchored_offset(p, size as int, parent as int) + m <= usize::MAX,
    ensures
        resolved_position(p, size, parent, m) == anchored_offset(p, size as int, parent as int)
            + m,
{
}

} // verus!
