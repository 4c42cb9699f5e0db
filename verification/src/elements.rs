//! The elements that come with the library.

pub mod div;

use vstd::prelude::*;
use crate::render::{DrawOp, RenderScope, ScopeView, TextRaster, recorded};
use crate::widget::{Element, keeps_frame};

verus! {

/// A filled rectangle of one colour that covers the scope it is drawn into.
#[derive(Debug, Clone, Copy, PartialEq, Eq, Structural)]
pub struct Rect(pub u32);

impl Element for Rect {
    /// A rectangle of the scope's current size is recorded at the scope's
    /// origin; with the transparent colour `0`, nothing.
    open spec fn renders(&self, before: ScopeView, after: ScopeView) -> bool {
        after == if self.0 == 0 {
            before
        } else {
            recorded(
                before,
                DrawOp::Rectangle {
                    x: 0,
                    y: 0,
                    width: before.transform.width,
                    height: before.transform.height,
                    color: self.0,
                },
            )
        }
    }

    fn render(&mut self, scope: &mut RenderScope)
        ensures
            *final(self) == *old(self),
    {
        let (w, h) = scope.get_size();
        scope.draw_rect(0, 0, w, h, self.0);
    }
}

/// A rectangle only records: it leaves the frame buffer and the parent
/// size alone.
pub proof fn lemma_rect_keeps_frame(rect: Rect, before: ScopeView, after: ScopeView)
    requires
        rect.renders(before, after),
    ensures
        keeps_frame(before, after),
{
}

/// The colour of a label.
pub const LABEL_COLOR: u32 = 0xFF_FFFF;

/// A line of white text, rasterized when the label is made.
#[derive(Debug)]
pub struct Label {
    pub text: String,
    pub raster: TextRaster,
}

impl Element for Label {
    /// The text is recorded at the scope's origin.
    open spec fn renders(&self, before: ScopeView, after: ScopeView) -> bool {
        after == recorded(
            before,
            DrawOp::Text {
                text: self.text@,
                x: 0,
                y: 0,
                raster: self.raster@,
                color: LABEL_COLOR,
            },
        )
    }

    fn render(&mut self, scope: &mut RenderScope)
        ensures
            final(self).text@ == old(self).text@,
            final(self).raster@ == old(self).raster@,
    {
        scope.draw_text(0, 0, self.raster.clone(), self.text.as_str(), LABEL_COLOR);
    }
}

/// A label only records: it leaves the frame buffer and the parent size
/// alone.
pub proof fn lemma_label_keeps_frame(label: Label, before: ScopeView, after: ScopeView)
    requires
        label.renders(before, after),
    ensures
        keeps_frame(before, after),
{
}

/// An element that draws by calling a function.
pub struct Custom<F: Fn(&mut RenderScope) + Send> {
    paint: F,
}

impl<F: Fn(&mut RenderScope) + Send> Custom<F> {
    /// The function can be called with any scope.
    #[verifier::type_invariant]
    spec fn callable(self) -> bool {
        forall|scope: &mut RenderScope| call_requires(self.paint, (scope,))
    }
}

impl<F: Fn(&mut RenderScope) + Send> Element for Custom<F> {
    fn render(&mut self, scope: &mut RenderScope)
        ensures
            exists|handed: &mut RenderScope|
                {
                    &&& *handed == *old(scope)
                    &&& *final(handed) == *final(scope)
                    &&& #[trigger] call_ensures(old(self).painter(), (handed,), ())
                },
            final(self).painter() == old(self).painter(),
    {
        proof {
            use_type_invariant(&*self);
        }
        (self.paint)(scope);
        assert(old(self).painter() == self.paint);
    }
}

/// Makes an element of a function that draws into the scope it is handed:
/// the element draws with `f`. The function must accept every scope.
pub fn custom<F: Fn(&mut RenderScope) + Send + 'static>(f: F) -> (element: Custom<F>)
    requires
        forall|scope: &mut RenderScope| call_requires(f, (scope,)),
    ensures
        element.painter() == f,
{
    Custom { paint: f }
}

impl<F: Fn(&mut RenderScope) + Send> Custom<F> {
    /// The function that this element draws with. Rendering calls it once
    /// with the scope, which is left as that call leaves it; the element
    /// keeps its function.
    pub closed spec fn painter(self) -> F {
        self.paint
    }
}

} // verus!
