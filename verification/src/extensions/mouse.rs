//! Pointer interaction: press edges and hit tests.
//!
//! The button is sampled once per frame. A click is dispatched only during
//! the frame in which the button went down, so that a held button does not
//! fire again.

use vstd::prelude::*;
use crate::extensions::{Extension, InputSnapshot};
use crate::style::RawTransform;
use crate::widget::{Widget, on_click_in};

verus! {

/// A click attribute: the handle of the action to run when the widget is
/// clicked.
#[derive(Debug, Clone, Copy, PartialEq, Eq, Structural)]
pub struct OnClick(pub usize);

/// Whether the button was up or down at the last sample.
#[derive(Debug, Clone, Copy, PartialEq, Eq, Structural)]
pub enum PointerState {
    Idle,
    Pressed,
}

/// The model of the click tracker: the button's state at the last sample,
/// and whether that sample was the one at which the button went down.
pub struct Tracker {
    pub state: PointerState,
    pub armed: bool,
}

/// Tracks the primary button from frame to frame.
#[derive(Debug, Clone, Copy)]
pub struct MouseExtension {
    pressed: bool,
    armed: bool,
}

/// The tracker after the button was sampled: it is armed exactly when the
/// button is down now and was up before.
pub open spec fn sampled(t: Tracker, button_down: bool) -> Tracker {
    Tracker {
        state: if button_down {
            PointerState::Pressed
        } else {
            PointerState::Idle
        },
        armed: button_down && t.state == PointerState::Idle,
    }
}

/// The tracker after one sample per frame, in order.
pub open spec fn sampled_all(t: Tracker, buttons: Seq<bool>) -> Tracker
    decreases buttons.len(),
{
    if buttons.len() == 0 {
        t
    } else {
        sampled(sampled_all(t, buttons.drop_last()), buttons.last())
    }
}

/// `frames` samples in a row with the button down.
pub open spec fn held_down(frames: nat) -> Seq<bool> {
    Seq::new(frames, |j: int| true)
}

/// Whether the point lies in the rectangle, its edges included.
pub open spec fn hits(rect: RawTransform, x: usize, y: usize) -> bool {
    &&& rect.x <= x <= rect.x + rect.width
    &&& rect.y <= y <= rect.y + rect.height
}

/// Whether a click is dispatched to a widget with the given rectangle: the
/// tracker is armed and the pointer is over the rectangle.
pub open spec fn dispatches(t: Tracker, rect: RawTransform, pointer: Option<(usize, usize)>) -> bool {
    t.armed && pointer.is_some() && hits(rect, pointer.unwrap().0, pointer.unwrap().1)
}

impl View for MouseExtension {
    type V = Tracker;

    closed spec fn view(&self) -> Tracker {
        Tracker {
            state: if self.pressed {
                PointerState::Pressed
            } else {
                PointerState::Idle
            },
            armed: self.armed,
        }
    }
}

impl MouseExtension {
    /// A tracker for a button that is up.
    pub fn new() -> (m: MouseExtension)
        ensures
            m@ == (Tracker { state: PointerState::Idle, armed: false }),
    {
        MouseExtension { pressed: false, armed: false }
    }

    /// Takes this frame's sample of the button.
    pub fn sample(&mut self, button_down: bool)
        ensures
            final(self)@ == sampled(old(self)@, button_down),
    {
        self.armed = button_down && !self.pressed;
        self.pressed = button_down;
    }

    /// Whether the point lies in the rectangle, its edges included.
    pub fn hit(rect: &RawTransform, x: usize, y: usize) -> (inside: bool)
        ensures
            inside == hits(*rect, x, y),
    {
        x >= rect.x && x - rect.x <= rect.width && y >= rect.y && y - rect.y <= rect.height
    }

    /// Whether a click is dispatched to a widget with the given rectangle
    /// during this frame.
    pub fn clicked(&self, rect: &RawTransform, pointer: Option<(usize, usize)>) -> (fire: bool)
        ensures
            fire == dispatches(self@, *rect, pointer),
    {
        if !self.armed {
            return false;
        }
        match pointer {
            Some((x, y)) => Self::hit(rect, x, y),
            None => false,
        }
    }
}

impl Extension for MouseExtension {
    /// Nothing to prepare: the tracker stays as it is.
    fn init(&mut self, widgets: &Vec<Widget>)
        ensures
            final(self)@ == old(self)@,
    {
    }

    /// Samples the button.
    fn before_render(&mut self, widgets: &Vec<Widget>, transform: RawTransform, input: &InputSnapshot)
        ensures
            final(self)@ == sampled(old(self)@, input.button_down),
    {
        self.sample(input.button_down);
    }

    open spec fn has_render_hook(&self) -> bool {
        true
    }

    /// Hands back the widget's click action where a click is dispatched to
    /// it; a widget without a click action gets none. Neither the tracker
    /// nor the widget changes.
    fn render(&mut self, widget: &mut Widget, transform: RawTransform, input: &InputSnapshot) -> (action: Option<OnClick>)
        ensures
            final(self)@ == old(self)@,
            final(widget).components@ == old(widget).components@,
            action == if dispatches(old(self)@, transform, input.pointer) {
                on_click_in(old(widget).components@)
            } else {
                None
            },
    {
        if self.clicked(&transform, input.pointer) {
            widget.on_click()
        } else {
            None
        }
    }
}

/// A press arms the tracker exactly when the button was up before.
pub proof fn lemma_press_edge_arms(t: Tracker)
    ensures
        sampled(t, true).armed == (t.state == PointerState::Idle),
        !sampled(t, false).armed,
{
}

/// A click is dispatched in frame `i` exactly when the button went down in
/// that frame (it is down, and was up in the frame before, or before the
/// first frame) and the pointer is then over the rectangle.
pub proof fn lemma_dispatch_only_on_press_edge(
    t: Tracker,
    buttons: Seq<bool>,
    i: int,
    rect: RawTransform,
    pointer: Option<(usize, usize)>,
)
    requires
        0 <= i < buttons.len(),
    ensures
        dispatches(sampled_all(t, buttons.take(i + 1)), rect, pointer) == ({
            &&& buttons[i]
            &&& if i == 0 {
                t.state == PointerState::Idle
            } else {
                !buttons[i - 1]
            }
            &&& pointer.is_some()
            &&& hits(rect, pointer.unwrap().0, pointer.unwrap().1)
        }),
{
    let upto = buttons.take(i + 1);
    let before = buttons.take(i);
    assert(upto.last() == buttons[i]);
    assert(upto.drop_last() =~= before);
    assert(sampled_all(t, upto) == sampled(sampled_all(t, before), buttons[i]));
    if i > 0 {
        assert(before.last() == buttons[i - 1]);
        assert(sampled_all(t, before) == sampled(
            sampled_all(t, before.drop_last()),
            buttons[i - 1],
        ));
    } else {
        assert(sampled_all(t, before) == t);
    }
}

/// One press, however long the button is held, dispatches one click: with
/// the pointer over the rectangle throughout, the click fires in the frame
/// in which the button goes down and in none of the `held` frames that
/// follow with the button still down.
pub proof fn lemma_one_click_per_press(
    t: Tracker,
    held: nat,
    rect: RawTransform,
    pointer: Option<(usize, usize)>,
)
    requires
        t.state == PointerState::Idle,
        pointer.is_some(),
        hits(rect, pointer.unwrap().0, pointer.unwrap().1),
    ensures
        dispatches(sampled(t, true), rect, pointer),
        forall|k: nat|
            1 <= k <= held ==> !dispatches(
                #[trigger] sampled_all(sampled(t, true), held_down(k)),
                rect,
                pointer,
            ),
{
    assert forall|k: nat| 1 <= k <= held implies !dispatches(
        #[trigger] sampled_all(sampled(t, true), held_down(k)),
        rect,
        pointer,
    ) by {
        lemma_held_is_pressed(sampled(t, true), k);
    }
}

/// While the button stays down after a frame in which it was down, the
/// tracker stays pressed and is never armed.
pub proof fn lemma_held_is_pressed(t: Tracker, k: nat)
    requires
        t.state == PointerState::Pressed,
    ensures
        sampled_all(t, held_down(k)).state == PointerState::Pressed,
        k >= 1 ==> !sampled_all(t, held_down(k)).armed,
    decreases k,
{
    if k > 0 {
        assert(held_down(k).drop_last() =~= held_down((k - 1) as nat));
        lemma_held_is_pressed(t, (k - 1) as nat);
    }
}

} // verus!
