//! Extensions: logic that observes and changes widgets around each frame.
//!
//! The frame driver calls every extension once before a frame is painted and
//! once for each widget when that widget's rectangle is settled. What the
//! extension learns of the outside world it learns from an input snapshot
//! taken once per frame.

pub mod mouse;
pub mod velocity;

use vstd::prelude::*;
use crate::extensions::mouse::OnClick;
use crate::style::RawTransform;
use crate::widget::Widget;

verus! {

/// The state of the pointer, sampled once per frame.
#[derive(Debug, Clone, Copy)]
pub struct InputSnapshot {
    /// Whether the primary button is down.
    pub button_down: bool,
    /// The pointer's position in surface pixels, if it is over the surface.
    pub pointer: Option<(usize, usize)>,
}

/// Hooks into the frame sequence. Every hook does nothing unless an
/// extension says otherwise.
pub trait Extension: Send {
    /// Called once, when the list of widgets is complete and before the
    /// first frame.
    fn init(&mut self, widgets: &Vec<Widget>) {
    }

    /// Called once per frame, before any widget is painted.
    fn before_render(&mut self, widgets: &Vec<Widget>, transform: RawTransform, input: &InputSnapshot) {
    }

    /// Called once per widget per frame, when the widget's rectangle is
    /// settled. Returns the action to dispatch for this widget, if any.
    fn render(&mut self, widget: &mut Widget, transform: RawTransform, input: &InputSnapshot) -> (action: Option<OnClick>)
        ensures
            !old(self).has_render_hook() ==> {
                &&& action.is_none()
                &&& *final(widget) == *old(widget)
            },
    {
        None
    }

    /// Whether this extension brings a `render` hook of its own. One that
    /// does says so here, and says in its hook's contract what the hook
    /// does. The hook of an extension that brings none does nothing: it asks
    /// for no action and leaves the widget as it is.
    open spec fn has_render_hook(&self) -> bool {
        false
    }
}

} // verus!
