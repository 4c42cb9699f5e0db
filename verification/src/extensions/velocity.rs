//! Continuous motion: a tick counter that cycles independently of the frame
//! rate, and margins that move by one pixel on the ticks a velocity selects.

use vstd::prelude::*;
use crate::extensions::mouse::OnClick;
use crate::extensions::{Extension, InputSnapshot};
use crate::style::{RawTransform, Transform};
use crate::widget::{Component, ComponentKind, Widget, transform_in, velocity_in};

verus! {

/// The length of one cycle of the tick counter, and the velocity that moves
/// on every tick.
pub const PERIOD: usize = 1000;

/// A velocity attribute: horizontal and vertical speed. The sign gives the
/// direction; the magnitude is the number of moves per `PERIOD` ticks,
/// rounded to what a whole interval between moves allows.
#[derive(Debug, Clone, Copy, PartialEq, Eq, Structural)]
pub struct Velocity(pub i32, pub i32);

/// The motion driver.
#[derive(Debug, Clone, Copy)]
pub struct VelocityExtension;

/// The magnitude of a velocity.
pub open spec fn speed(velocity: int) -> int {
    if velocity < 0 {
        -velocity
    } else {
        velocity
    }
}

/// The number of ticks from one move to the next: the period divided by the
/// speed, rounded down. A speed beyond the period moves on every tick, as
/// the speed equal to the period does.
pub open spec fn interval(velocity: int) -> int
    recommends
        velocity != 0,
{
    if speed(velocity) >= PERIOD {
        1
    } else {
        PERIOD as int / speed(velocity)
    }
}

/// Whether a widget of this velocity moves on this tick.
pub open spec fn moves_on(ticks: int, velocity: int) -> bool {
    velocity != 0 && ticks % interval(velocity) == 0
}

/// By how much a margin changes on this tick: one pixel in the velocity's
/// direction on a tick that moves, else nothing.
pub open spec fn step(ticks: int, velocity: int) -> int {
    if !moves_on(ticks, velocity) {
        0
    } else if velocity > 0 {
        1
    } else {
        -1
    }
}

/// `v` brought into the range of a margin.
pub open spec fn clamp_margin(v: int) -> i32 {
    if v < i32::MIN {
        i32::MIN
    } else if v > i32::MAX {
        i32::MAX
    } else {
        v as i32
    }
}

/// The tick that follows `tick`: the counter runs from zero up to one
/// below the period and then starts again at zero, so that one cycle is
/// `PERIOD` ticks long.
pub open spec fn following_tick(tick: usize) -> usize {
    if tick + 1 >= PERIOD {
        0
    } else {
        (tick + 1) as usize
    }
}

/// The margin after `n` consecutive ticks, the first of them `tick`, at a
/// constant velocity.
pub open spec fn margin_after(tick: usize, n: nat, velocity: i32, margin: i32) -> i32
    decreases n,
{
    if n == 0 {
        margin
    } else {
        margin_after(
            following_tick(tick),
            (n - 1) as nat,
            velocity,
            clamp_margin(margin + step(tick as int, velocity as int)),
        )
    }
}

/// The attributes of a widget after one tick: a widget that carries both a
/// velocity and a layout rule has the rule's margins moved by this tick's
/// steps, horizontally by the first speed and vertically by the second; any
/// other widget is left alone.
pub open spec fn moved(
    components: Map<ComponentKind, Component>,
    ticks: usize,
) -> Map<ComponentKind, Component> {
    match (velocity_in(components), transform_in(components)) {
        (Some(v), Some(t)) => components.insert(
            ComponentKind::Transform,
            Component::Transform(
                Transform {
                    mx: clamp_margin(t.mx + step(ticks as int, v.0 as int)),
                    my: clamp_margin(t.my + step(ticks as int, v.1 as int)),
                    ..t
                },
            ),
        ),
        _ => components,
    }
}

impl Extension for VelocityExtension {
    /// Motion is driven by ticks, not by frames: a widget is handed back as
    /// it came, and no action is asked for.
    fn render(&mut self, widget: &mut Widget, transform: RawTransform, input: &InputSnapshot) -> (action: Option<OnClick>)
        ensures
            action.is_none(),
            *final(widget) == *old(widget),
    {
        None
    }
}

impl VelocityExtension {
    /// Moves the margin `x` by this tick's step. A margin at the end of its
    /// range stays there.
    pub fn apply_velocity(ticks: usize, velocity: i32, x: &mut i32)
        ensures
            *final(x) == clamp_margin(*old(x) + step(ticks as int, velocity as int)),
            velocity != 0 ==> 1 <= interval(velocity as int) <= PERIOD,
    {
        if velocity == 0 {
            return ;
        }
        let fast: usize = if velocity < 0 {
            (-(velocity as i64)) as usize
        } else {
            velocity as usize
        };
        let every: usize = if fast >= PERIOD {
            1
        } else {
            assert(1000int / (fast as int) >= 1) by (nonlinear_arith)
                requires
                    1 <= fast < 1000,
            ;
            PERIOD / fast
        };
        if ticks % every == 0 {
            if velocity > 0 {
                if *x < i32::MAX {
                    *x = *x + 1;
                }
            } else {
                if *x > i32::MIN {
                    *x = *x - 1;
                }
            }
        }
    }

    /// Moves the margins of one widget by this tick's steps.
    pub fn apply_velocity_xy(ticks: usize, widget: &mut Widget)
        ensures
            final(widget).components@ == moved(old(widget).components@, ticks),
            final(widget).drawable == old(widget).drawable,
    {
        if let Some(velocity) = widget.velocity() {
            if let Some(mut t) = widget.transform() {
                Self::apply_velocity(ticks, velocity.0, &mut t.mx);
                Self::apply_velocity(ticks, velocity.1, &mut t.my);
                widget.set_component(Component::Transform(t));
            }
        }
    }

    /// Runs one tick of the motion driver: moves every widget's margins by
    /// this tick's steps and hands back the tick that follows.
    pub fn tick(ticks: usize, widgets: &mut Vec<Widget>) -> (next: usize)
        ensures
            next == following_tick(ticks),
            final(widgets).len() == old(widgets).len(),
            forall|i: int|
                0 <= i < old(widgets).len() ==> {
                    &&& (#[trigger] final(widgets)@[i]).components@ == moved(
                        old(widgets)@[i].components@,
                        ticks,
                    )
                    &&& final(widgets)@[i].drawable == old(widgets)@[i].drawable
                },
    {
        let count = widgets.len();
        let mut i: usize = 0;
        while i < count
            invariant
                i <= count,
                count == widgets.len(),
                widgets.len() == old(widgets).len(),
                forall|j: int|
                    0 <= j < i ==> {
                        &&& (#[trigger] widgets@[j]).components@ == moved(
                            old(widgets)@[j].components@,
                            ticks,
                        )
                        &&& widgets@[j].drawable == old(widgets)@[j].drawable
                    },
                forall|j: int| i <= j < count ==> #[trigger] widgets@[j] == old(widgets)@[j],
            decreases count - i,
        {
            Self::apply_velocity_xy(ticks, &mut widgets[i]);
            i += 1;
        }
        Self::next_tick(ticks)
    }

    /// The tick that follows `tick`.
    pub fn next_tick(tick: usize) -> (next: usize)
        ensures
            next == following_tick(tick),
    {
        if tick >= PERIOD - 1 {
            0
        } else {
            tick + 1
        }
    }
}

/// At the full speed of one period a margin moves on every tick.
pub proof fn lemma_full_speed_moves_every_tick(ticks: usize)
    ensures
        step(ticks as int, PERIOD as int) == 1,
        step(ticks as int, -(PERIOD as int)) == -1,
{
}

/// At velocity zero a margin moves on no tick.
pub proof fn lemma_zero_velocity_never_moves(ticks: usize)
    ensures
        step(ticks as int, 0) == 0,
{
}

/// At velocity zero a margin is where it was after any number of ticks.
pub proof fn lemma_zero_velocity_stays(tick: usize, n: nat, margin: i32)
    ensures
        margin_after(tick, n, 0, margin) == margin,
    decreases n,
{
    if n > 0 {
        lemma_zero_velocity_stays(following_tick(tick), (n - 1) as nat, margin);
    }
}

/// At the full speed of one period a margin has moved by one pixel for each
/// tick, as far as the range of a margin allows.
pub proof fn lemma_full_speed_travels_one_per_tick(tick: usize, n: nat, margin: i32)
    ensures
        margin_after(tick, n, PERIOD as i32, margin) == clamp_margin(margin + n),
    decreases n,
{
    if n > 0 {
        let moved = clamp_margin(margin + step(tick as int, PERIOD as int));
        lemma_full_speed_travels_one_per_tick(following_tick(tick), (n - 1) as nat, moved);
    }
}

} // verus!
