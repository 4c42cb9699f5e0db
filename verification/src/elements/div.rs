//! A container: a background and child widgets laid out inside it.

use vstd::prelude::*;
use crate::raster::blank_frame;
use crate::render::{DrawOp, RenderScope, ScopeView, recorded};
use crate::style::RawTransform;
use crate::widget::{Component, ComponentKind, Element, Widget, keeps_frame};

verus! {

/// How a container looks.
#[derive(Debug, Clone, Copy, PartialEq, Eq, Structural)]
pub struct DivStyle {
    /// The background colour; `0` paints no background.
    pub background_color: u32,
    /// The radius of the background's corners; `0` leaves them square.
    pub corner_radius: usize,
}

/// A container of child widgets.
pub struct Div {
    pub children: Vec<Widget>,
    pub style: DivStyle,
}

impl Default for DivStyle {
    /// No background, square corners.
    fn default() -> (style: DivStyle)
        ensures
            style == (DivStyle { background_color: 0, corner_radius: 0 }),
    {
        DivStyle { background_color: 0, corner_radius: 0 }
    }
}

impl Default for Div {
    /// No children, and the default style.
    fn default() -> (div: Div)
        ensures
            div.children@.len() == 0,
            div.style == (DivStyle { background_color: 0, corner_radius: 0 }),
    {
        Div { children: Vec::new(), style: DivStyle { background_color: 0, corner_radius: 0 } }
    }
}

/// The size a container takes in the scope it is drawn into: the scope's
/// own size, with the parent's size standing in on each axis where that is
/// zero.
pub open spec fn container_size(s: ScopeView) -> (usize, usize) {
    (
        if s.transform.width > 0 {
            s.transform.width
        } else {
            s.parent_width
        },
        if s.transform.height > 0 {
            s.transform.height
        } else {
            s.parent_height
        },
    )
}

/// The scope after a container's background was recorded: a rectangle of
/// the container's size at the origin, rounded where the style has a corner
/// radius; nothing where the background colour is transparent.
pub open spec fn with_background(s: ScopeView, style: DivStyle) -> ScopeView {
    let (w, h) = container_size(s);
    if style.background_color == 0 {
        s
    } else if style.corner_radius == 0 {
        recorded(
            s,
            DrawOp::Rectangle { x: 0, y: 0, width: w, height: h, color: style.background_color },
        )
    } else {
        recorded(
            s,
            DrawOp::RoundedRectangle {
                x: 0,
                y: 0,
                width: w,
                height: h,
                radius: style.corner_radius,
                color: style.background_color,
            },
        )
    }
}

/// The scope after the scopes `kids` were merged into it in order.
pub open spec fn merged_all(s: ScopeView, kids: Seq<ScopeView>) -> ScopeView
    decreases kids.len(),
{
    if kids.len() == 0 {
        s
    } else {
        recorded(merged_all(s, kids.drop_last()), DrawOp::Merge { scope: kids.last() })
    }
}

/// The scope that a container hands to its first child: empty, laid out in
/// a parent of the container's size, with a background-filled frame buffer
/// of that size.
pub open spec fn child_scope(size: (usize, usize)) -> ScopeView {
    ScopeView {
        transform: RawTransform { x: 0, y: 0, width: 0, height: 0 },
        ops: Seq::empty(),
        parent_width: size.0,
        parent_height: size.1,
        max_size: (0, 0),
        frame: blank_frame(size.0, size.1),
    }
}

/// Whether `kids` are the scopes that the children leave when each in turn
/// is rendered into one scope, the first into `first` and every other into
/// what the child before it left.
pub open spec fn children_rendered(
    children: Seq<Widget>,
    first: ScopeView,
    kids: Seq<ScopeView>,
) -> bool
    decreases children.len(),
{
    if children.len() == 0 {
        kids.len() == 0
    } else {
        &&& kids.len() == children.len()
        &&& children_rendered(children.drop_last(), first, kids.drop_last())
        &&& children.last().rendered(
            if kids.len() == 1 {
                first
            } else {
                kids[kids.len() - 2]
            },
            kids.last(),
        )
    }
}

/// Merging scopes leaves the frame buffer and the parent size alone.
pub proof fn lemma_merged_all_keeps_frame(s: ScopeView, kids: Seq<ScopeView>)
    ensures
        keeps_frame(s, merged_all(s, kids)),
    decreases kids.len(),
{
    if kids.len() > 0 {
        lemma_merged_all_keeps_frame(s, kids.drop_last());
    }
}

/// A container only records, whatever its children do to the scope they
/// are handed: it leaves the frame buffer and the parent size alone.
pub proof fn lemma_container_keeps_frame(div: Div, before: ScopeView, after: ScopeView)
    requires
        div.renders(before, after),
    ensures
        keeps_frame(before, after),
{
    let kids = choose|kids: Seq<ScopeView>|
        {
            &&& #[trigger] children_rendered(
                div.children@,
                child_scope(container_size(before)),
                kids,
            )
            &&& after == merged_all(with_background(before, div.style), kids)
        };
    lemma_merged_all_keeps_frame(with_background(before, div.style), kids);
}

impl Element for Div {
    /// The background is recorded first; then each child in turn is
    /// rendered into one scope of the container's size, and what it leaves
    /// is merged.
    open spec fn renders(&self, before: ScopeView, after: ScopeView) -> bool {
        exists|kids: Seq<ScopeView>|
            {
                &&& #[trigger] children_rendered(
                    self.children@,
                    child_scope(container_size(before)),
                    kids,
                )
                &&& after == merged_all(with_background(before, self.style), kids)
            }
    }

    /// The children's attributes and the style do not change.
    fn render(&mut self, scope_parent: &mut RenderScope)
        ensures
            final(self).style == old(self).style,
            final(self).children@.len() == old(self).children@.len(),
            forall|i: int|
                0 <= i < old(self).children@.len() ==> (#[trigger] final(self).children@[i]).components@
                    == old(self).children@[i].components@,
    {
        let (w, h) = scope_parent.get_size_or_parent();
        scope_parent.draw_rect_rounded(
            0,
            0,
            w,
            h,
            self.style.corner_radius,
            self.style.background_color,
        );
        let ghost backed = scope_parent@;
        let ghost mut kids: Seq<ScopeView> = Seq::empty();
        let mut scope = RenderScope::new(w, h);
        let ghost first = scope@;
        let count = self.children.len();
        let mut i: usize = 0;
        while i < count
            invariant
                i <= count,
                count == self.children.len(),
                self.style == old(self).style,
                self.children.len() == old(self).children.len(),
                forall|j: int|
                    0 <= j < count ==> (#[trigger] self.children@[j]).components@ == old(
                        self,
                    ).children@[j].components@,
                forall|j: int|
                    i <= j < count ==> #[trigger] self.children@[j] == old(self).children@[j],
                children_rendered(old(self).children@.take(i as int), first, kids),
                kids.len() == i,
                scope@ == if i == 0 {
                    first
                } else {
                    kids[i - 1]
                },
                scope_parent@ == merged_all(backed, kids),
            decreases count - i,
        {
            self.children[i].render(&mut scope);
            let copy = scope.clone();
            proof {
                let extended = kids.push(copy@);
                let upto = old(self).children@.take(i + 1);
                assert(extended.drop_last() =~= kids);
                assert(upto.drop_last() =~= old(self).children@.take(i as int));
                kids = extended;
            }
            scope_parent.merge(copy);
            i += 1;
        }
        proof {
            assert(old(self).children@.take(count as int) =~= old(self).children@);
            assert(children_rendered(
                old(self).children@,
                child_scope(container_size(old(scope_parent)@)),
                kids,
            ));
        }
    }
}

impl Div {
    /// Adds `element` as the last child, without attributes, and hands the
    /// new child back so that attributes can be attached to it.
    pub fn draw<E: Element + 'static>(&mut self, element: E) -> (child: &mut Widget)
        ensures
            child.components@ == Map::<ComponentKind, Component>::empty(),
            final(self).style == old(self).style,
            final(self).children@ == old(self).children@.push(*final(child)),
    {
        self.children.push(Widget::new(Box::new(element)));
        let last = self.children.len() - 1;
        &mut self.children[last]
    }
}

} // verus!
