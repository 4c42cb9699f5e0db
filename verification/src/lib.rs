//! A small retained-widget compositor: symbolic layout rules are resolved into
//! pixel rectangles, widgets record drawing operations into render scopes, and
//! scopes are rasterized into a shared frame buffer.
//!
//! The library owns no window. A frame is driven from outside: take an
//! [`InputSnapshot`](extensions::InputSnapshot), call [`Screen::render`],
//! present the scope's frame buffer, clear it.

pub mod elements;
pub mod extensions;
pub mod raster;
pub mod render;
pub mod style;
pub mod widget;

use vstd::prelude::*;
use crate::extensions::mouse::OnClick;
use crate::extensions::{Extension, InputSnapshot};
use crate::raster::{cleared, row_major};
use crate::render::{RenderScope, ScopeView, paint_scope, resized};
use crate::style::{Dimension, Position, Transform};
use crate::widget::{
    Component, ComponentKind, Element, Widget, emptied, keeps_frame, laid_out,
    lemma_laid_out_is_settled, settled, transform_in,
};

verus! {

/// An action to run for a widget: the widget's place in the screen's list
/// and the action's handle.
#[derive(Debug, Clone, Copy, PartialEq, Eq, Structural)]
pub struct Dispatch {
    pub widget: usize,
    pub action: OnClick,
}

/// The actions after an extension answered for a widget: an action that
/// was asked for is appended with the widget's place; no answer adds
/// nothing.
pub open spec fn answered(
    actions: Seq<Dispatch>,
    widget: usize,
    answer: Option<OnClick>,
) -> Seq<Dispatch> {
    match answer {
        Some(action) => actions.push(Dispatch { widget, action }),
        None => actions,
    }
}

/// The actions after every extension in turn answered for one widget.
pub open spec fn answered_in_turn(
    actions: Seq<Dispatch>,
    widget: usize,
    answers: Seq<Option<OnClick>>,
) -> Seq<Dispatch>
    decreases answers.len(),
{
    if answers.len() == 0 {
        actions
    } else {
        answered(answered_in_turn(actions, widget, answers.drop_last()), widget, answers.last())
    }
}

/// The actions of a frame in which `answers[i]` holds, extension by
/// extension, what was answered for the widget at place `i`.
pub open spec fn dispatched(answers: Seq<Seq<Option<OnClick>>>) -> Seq<Dispatch>
    decreases answers.len(),
{
    if answers.len() == 0 {
        Seq::empty()
    } else {
        answered_in_turn(
            dispatched(answers.drop_last()),
            (answers.len() - 1) as usize,
            answers.last(),
        )
    }
}

/// Whether `actions` are the actions of a frame with `widgets` widgets and
/// `extensions` extensions in which the extensions answered `answers`:
/// every extension answers once for every widget, and what was asked for is
/// dispatched widget by widget, extension by extension.
pub open spec fn actions_dispatched(
    widgets: nat,
    extensions: nat,
    answers: Seq<Seq<Option<OnClick>>>,
    actions: Seq<Dispatch>,
) -> bool {
    &&& answers.len() == widgets
    &&& forall|i: int| 0 <= i < answers.len() ==> (#[trigger] answers[i]).len() == extensions
    &&& actions == dispatched(answers)
}

impl Dispatch {
    /// Notes what an extension answered for the widget at place `widget`.
    pub fn collect(actions: &mut Vec<Dispatch>, widget: usize, answer: Option<OnClick>)
        ensures
            final(actions)@ == answered(old(actions)@, widget, answer),
    {
        if let Some(action) = answer {
            actions.push(Dispatch { widget, action });
        }
    }
}

/// What one frame hands to the surface: the pixels to present, row after
/// row, and the actions to dispatch.
#[derive(Debug)]
pub struct Frame {
    pub pixels: Vec<u32>,
    pub actions: Vec<Dispatch>,
}

/// The root of a widget tree, and the extensions that watch it.
pub struct Screen {
    pub widgets: Vec<Widget>,
    pub extensions: Vec<Box<dyn Extension>>,
}

/// The scope after its recorded operations were painted into its own frame
/// buffer.
pub open spec fn drawn(s: ScopeView) -> ScopeView {
    ScopeView { frame: paint_scope(s, 0, 0, s.frame), ..s }
}

/// The scope at the end of a frame, before its frame buffer is cleared:
/// what the last widget left, painted. Without widgets the scope is as it
/// was.
pub open spec fn shown(before: ScopeView, states: Seq<ScopeView>) -> ScopeView {
    if states.len() == 0 {
        before
    } else {
        drawn(states.last())
    }
}

/// Whether `states` are the scopes that the widgets leave when each in turn
/// is rendered into one scope and then painted: the first is rendered into
/// `before`, every other into what the widget before it left, painted.
pub open spec fn widgets_rendered(
    widgets: Seq<Widget>,
    before: ScopeView,
    states: Seq<ScopeView>,
) -> bool
    decreases widgets.len(),
{
    if widgets.len() == 0 {
        states.len() == 0
    } else {
        &&& states.len() == widgets.len()
        &&& widgets_rendered(widgets.drop_last(), before, states.drop_last())
        &&& widgets.last().rendered(shown(before, states.drop_last()), states.last())
    }
}

/// Whether a frame that started from the scope `before`, already laid out
/// for the surface, ended with `pixels` to present and the scope `after`,
/// with `states` what the widgets left: the pixels are the frame buffer
/// after every widget was painted, and the scope is left as the last widget
/// left it, its frame buffer cleared.
pub open spec fn frame_completed(
    widgets: Seq<Widget>,
    before: ScopeView,
    states: Seq<ScopeView>,
    pixels: Seq<u32>,
    after: ScopeView,
) -> bool {
    &&& widgets_rendered(widgets, before, states)
    &&& pixels == row_major(shown(before, states).frame)
    &&& after == (ScopeView {
        frame: cleared(shown(before, states).frame),
        ..shown(before, states)
    })
}

/// The frame after the scopes were painted into it one after another.
pub open spec fn painted_in_turn(states: Seq<ScopeView>, frame: Seq<Seq<u32>>) -> Seq<Seq<u32>>
    decreases states.len(),
{
    if states.len() == 0 {
        frame
    } else {
        paint_scope(states.last(), 0, 0, painted_in_turn(states.drop_last(), frame))
    }
}

/// Whether every state was recorded without touching the frame buffer or
/// the parent size of the scope it was recorded into: the first into
/// `before`, every other into what the state before it left, painted.
pub open spec fn frames_kept(before: ScopeView, states: Seq<ScopeView>) -> bool
    decreases states.len(),
{
    if states.len() == 0 {
        true
    } else {
        &&& frames_kept(before, states.drop_last())
        &&& keeps_frame(shown(before, states.drop_last()), states.last())
    }
}

/// Widgets are painted over one another in list order: where recording
/// leaves the frame buffer alone, the frame buffer at the end of a frame is
/// the frame buffer it started with, with what each widget left painted
/// into it in turn, and the parent size is the one the frame started with.
pub proof fn lemma_frame_is_painted_in_turn(before: ScopeView, states: Seq<ScopeView>)
    requires
        frames_kept(before, states),
    ensures
        shown(before, states).frame == painted_in_turn(states, before.frame),
        shown(before, states).parent_width == before.parent_width,
        shown(before, states).parent_height == before.parent_height,
    decreases states.len(),
{
    if states.len() > 0 {
        lemma_frame_is_painted_in_turn(before, states.drop_last());
    }
}

/// What each widget leaves is settled under the widget's rule.
pub proof fn lemma_widgets_are_settled(
    widgets: Seq<Widget>,
    before: ScopeView,
    states: Seq<ScopeView>,
    i: int,
)
    requires
        widgets_rendered(widgets, before, states),
        0 <= i < states.len(),
    ensures
        settled(states[i], transform_in(widgets[i].components@)),
    decreases widgets.len(),
{
    if i < states.len() - 1 {
        lemma_widgets_are_settled(widgets.drop_last(), before, states.drop_last(), i);
    } else {
        lemma_rendered_is_settled(widgets.last(), shown(before, states.drop_last()), states.last());
    }
}

/// What a widget leaves of a scope is settled under the widget's rule.
pub proof fn lemma_rendered_is_settled(widget: Widget, before: ScopeView, after: ScopeView)
    requires
        widget.rendered(before, after),
    ensures
        settled(after, transform_in(widget.components@)),
{
    let rule = transform_in(widget.components@);
    let recorded = choose|recorded: ScopeView|
        {
            &&& #[trigger] widget.drawable.renders(laid_out(emptied(before), rule), recorded)
            &&& after == laid_out(recorded, rule)
        };
    lemma_laid_out_is_settled(recorded, rule);
}

/// The attributes of a widget made ready for its first frame: a widget
/// without a layout rule gets the default rule, top-left and sized by
/// content; any other widget is left alone.
pub open spec fn with_default_rule(
    components: Map<ComponentKind, Component>,
) -> Map<ComponentKind, Component> {
    if transform_in(components).is_some() {
        components
    } else {
        components.insert(
            ComponentKind::Transform,
            Component::Transform(
                Transform {
                    x: Position::Const(0),
                    y: Position::Const(0),
                    mx: 0,
                    my: 0,
                    width: Dimension::Auto,
                    height: Dimension::Auto,
                },
            ),
        )
    }
}

impl Screen {
    /// A screen without widgets or extensions.
    pub fn new() -> (screen: Screen)
        ensures
            screen.widgets@.len() == 0,
            screen.extensions@.len() == 0,
    {
        Screen { widgets: Vec::new(), extensions: Vec::new() }
    }

    /// Adds `element` as the last widget, without attributes, and hands the
    /// new widget back so that attributes can be attached to it.
    pub fn draw<E: Element + 'static>(&mut self, element: E) -> (widget: &mut Widget)
        ensures
            widget.components@ == Map::<ComponentKind, Component>::empty(),
            final(self).widgets@ == old(self).widgets@.push(*final(widget)),
            final(self).extensions@ == old(self).extensions@,
    {
        self.widgets.push(Widget::new(Box::new(element)));
        let last = self.widgets.len() - 1;
        &mut self.widgets[last]
    }

    /// Adds an extension; its hooks run after those of the extensions added
    /// before it.
    pub fn extension<E: Extension + 'static>(&mut self, ext: E)
        ensures
            final(self).widgets@ == old(self).widgets@,
            final(self).extensions@.len() == old(self).extensions@.len() + 1,
            forall|k: int|
                0 <= k < old(self).extensions@.len() ==> #[trigger] final(self).extensions@[k]
                    == old(self).extensions@[k],
    {
        let installed: Box<dyn Extension> = Box::new(ext);
        let ghost before = self.extensions@;
        self.extensions.push(installed);
        proof {
            vstd::seq::axiom_seq_push_len(before, installed);
            assert forall|k: int| 0 <= k < before.len() implies #[trigger] self.extensions@[k]
                == before[k] by {
                vstd::seq::axiom_seq_push_index_different(before, installed, k);
            }
        }
    }

    /// Prepares for the first frame: every widget without a layout rule gets
    /// the default one, then every extension's `init` hook runs once.
    pub fn start(&mut self)
        ensures
            final(self).widgets@.len() == old(self).widgets@.len(),
            forall|i: int|
                0 <= i < old(self).widgets@.len() ==> {
                    &&& (#[trigger] final(self).widgets@[i]).components@ == with_default_rule(
                        old(self).widgets@[i].components@,
                    )
                    &&& final(self).widgets@[i].drawable == old(self).widgets@[i].drawable
                },
            final(self).extensions@.len() == old(self).extensions@.len(),
    {
        let count = self.widgets.len();
        let mut i: usize = 0;
        while i < count
            invariant
                i <= count,
                count == self.widgets.len(),
                self.widgets.len() == old(self).widgets.len(),
                self.extensions@ == old(self).extensions@,
                forall|j: int|
                    0 <= j < i ==> {
                        &&& (#[trigger] self.widgets@[j]).components@ == with_default_rule(
                            old(self).widgets@[j].components@,
                        )
                        &&& self.widgets@[j].drawable == old(self).widgets@[j].drawable
                    },
                forall|j: int| i <= j < count ==> #[trigger] self.widgets@[j] == old(self).widgets@[j],
            decreases count - i,
        {
            if self.widgets[i].transform().is_none() {
                self.widgets[i].set_component(Component::Transform(Transform::new()));
            }
            i += 1;
        }
        let ghost ready = self.widgets@;
        let mut k: usize = 0;
        while k < self.extensions.len()
            invariant
                self.widgets@ == ready,
                self.extensions@.len() == old(self).extensions@.len(),
            decreases self.extensions.len() - k,
        {
            self.extensions[k].init(&self.widgets);
            k += 1;
        }
    }

    /// Runs one frame for a surface of `width` by `height` pixels. The
    /// scope adopts the surface's size; every extension samples the input
    /// once; then each widget in turn records into `scope`, is shown to
    /// every extension with its settled rectangle, and is painted into the
    /// scope's frame buffer over the widgets before it. Hands back the
    /// pixels to present, row after row, and the actions that extensions
    /// asked to dispatch, in the order they asked. The scope's frame buffer
    /// is left cleared for the next frame.
    pub fn render(
        &mut self,
        scope: &mut RenderScope,
        width: usize,
        height: usize,
        input: &InputSnapshot,
    ) -> (frame: Frame)
        ensures
            final(self).widgets@.len() == old(self).widgets@.len(),
            final(self).extensions@.len() == old(self).extensions@.len(),
            exists|states: Seq<ScopeView>|
                frame_completed(
                    old(self).widgets@,
                    resized(old(scope)@, width, height),
                    states,
                    frame.pixels@,
                    final(scope)@,
                ),
            exists|answers: Seq<Seq<Option<OnClick>>>|
                actions_dispatched(
                    old(self).widgets@.len(),
                    old(self).extensions@.len(),
                    answers,
                    frame.actions@,
                ),
            forall|a: int|
                0 <= a < frame.actions@.len() ==> (#[trigger] frame.actions@[a]).widget < old(
                    self,
                ).widgets@.len(),
    {
        scope.resize_if_needed(width, height);
        let ghost before = scope@;
        let mut actions: Vec<Dispatch> = Vec::new();
        let provisional = scope.get_transform();
        let mut k: usize = 0;
        while k < self.extensions.len()
            invariant
                self.widgets@ == old(self).widgets@,
                self.extensions@.len() == old(self).extensions@.len(),
            decreases self.extensions.len() - k,
        {
            self.extensions[k].before_render(&self.widgets, provisional, input);
            k += 1;
        }
        let ghost mut states: Seq<ScopeView> = Seq::empty();
        let ghost mut answers: Seq<Seq<Option<OnClick>>> = Seq::empty();
        let count = self.widgets.len();
        let mut i: usize = 0;
        while i < count
            invariant
                i <= count,
                actions_dispatched(i as nat, old(self).extensions@.len(), answers, actions@),
                count == self.widgets.len(),
                self.widgets.len() == old(self).widgets.len(),
                self.extensions@.len() == old(self).extensions@.len(),
                forall|j: int| i <= j < count ==> #[trigger] self.widgets@[j] == old(self).widgets@[j],
                before == resized(old(scope)@, width, height),
                widgets_rendered(old(self).widgets@.take(i as int), before, states),
                scope@ == shown(before, states),
                forall|a: int| 0 <= a < actions@.len() ==> (#[trigger] actions@[a]).widget < count,
            decreases count - i,
        {
            self.widgets[i].render(scope);
            let ghost state = scope@;
            let rect = scope.get_transform();
            let ghost earlier = actions@;
            let ghost mut given: Seq<Option<OnClick>> = Seq::empty();
            let mut k: usize = 0;
            while k < self.extensions.len()
                invariant
                    i < count,
                    k <= self.extensions.len(),
                    given.len() == k,
                    actions@ == answered_in_turn(earlier, i, given),
                    count == self.widgets.len(),
                    self.widgets.len() == old(self).widgets.len(),
                    self.extensions@.len() == old(self).extensions@.len(),
                    forall|j: int|
                        i < j < count ==> #[trigger] self.widgets@[j] == old(self).widgets@[j],
                    forall|a: int|
                        0 <= a < actions@.len() ==> (#[trigger] actions@[a]).widget < count,
                decreases self.extensions.len() - k,
            {
                let answer = self.extensions[k].render(&mut self.widgets[i], rect, input);
                Dispatch::collect(&mut actions, i, answer);
                proof {
                    assert(given.push(answer).drop_last() =~= given);
                    given = given.push(answer);
                }
                k += 1;
            }
            scope.draw();
            proof {
                let extended = states.push(state);
                let upto = old(self).widgets@.take(i + 1);
                assert(extended.drop_last() =~= states);
                assert(upto.drop_last() =~= old(self).widgets@.take(i as int));
                states = extended;
                assert(answers.push(given).drop_last() =~= answers);
                answers = answers.push(given);
            }
            i += 1;
        }
        assert(old(self).widgets@.take(count as int) =~= old(self).widgets@);
        let pixels = scope.get_buffer1d();
        scope.clear_buffer();
        let frame = Frame { pixels, actions };
        assert(actions_dispatched(
            old(self).widgets@.len(),
            old(self).extensions@.len(),
            answers,
            frame.actions@,
        ));
        assert(frame_completed(
            old(self).widgets@,
            resized(old(scope)@, width, height),
            states,
            frame.pixels@,
            scope@,
        ));
        frame
    }
}

} // verus!
