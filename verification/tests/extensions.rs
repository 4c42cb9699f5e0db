use osgui::elements::Rect;
use osgui::extensions::mouse::{MouseExtension, OnClick};
use osgui::extensions::velocity::{Velocity, VelocityExtension, PERIOD};
use osgui::extensions::{Extension, InputSnapshot};
use osgui::style::{RawTransform, Transform};
use osgui::widget::{Component, Widget};

fn moved(ticks: usize, velocity: i32, start: i32) -> i32 {
    let mut x = start;
    VelocityExtension::apply_velocity(ticks, velocity, &mut x);
    x
}

#[test]
fn full_speed_moves_on_every_tick() {
    for tick in 0..=1001 {
        assert_eq!(moved(tick, 1000, 7), 8);
        assert_eq!(moved(tick, -1000, 7), 6);
    }
    assert_eq!(moved(usize::MAX, 1000, 7), 8);
}

#[test]
fn zero_velocity_never_moves() {
    for tick in 0..=1001 {
        assert_eq!(moved(tick, 0, 7), 7);
    }
    assert_eq!(moved(usize::MAX, 0, -3), -3);
}

#[test]
fn velocity_300_moves_on_every_third_tick() {
    let mut x = 0;
    for tick in 0..9 {
        VelocityExtension::apply_velocity(tick, 300, &mut x);
    }
    assert_eq!(x, 3);
    assert_eq!(moved(0, 300, 0), 1);
    assert_eq!(moved(1, 300, 0), 0);
    assert_eq!(moved(2, 300, 0), 0);
    assert_eq!(moved(3, 300, 0), 1);
}

#[test]
fn slow_velocities_move_rarely() {
    assert_eq!(moved(0, 1, 0), 1);
    assert_eq!(moved(999, 1, 0), 0);
    assert_eq!(moved(1000, 1, 0), 1);
    assert_eq!(moved(142, -7, 0), -1);
    assert_eq!(moved(143, -7, 0), 0);
    assert_eq!(moved(501, 2, 0), 0);
    assert_eq!(moved(500, 2, 0), 1);
}

#[test]
fn speeds_beyond_the_period_move_on_every_tick() {
    assert_eq!(moved(1, 1001, 0), 1);
    assert_eq!(moved(1, i32::MAX, 0), 1);
    assert_eq!(moved(1, i32::MIN, 0), -1);
    assert_eq!(moved(1, 999, 0), 1);
    assert_eq!(moved(1, 501, 0), 1);
    assert_eq!(moved(1, 500, 0), 0);
}

#[test]
fn margins_stop_at_the_end_of_their_range() {
    assert_eq!(moved(0, 1000, i32::MAX), i32::MAX);
    assert_eq!(moved(0, -1000, i32::MIN), i32::MIN);
    assert_eq!(moved(0, 1000, i32::MAX - 1), i32::MAX);
    assert_eq!(moved(0, -1000, i32::MAX), i32::MAX - 1);
}

#[test]
fn tick_counter_cycles_over_the_period() {
    assert_eq!(PERIOD, 1000);
    assert_eq!(VelocityExtension::next_tick(0), 1);
    assert_eq!(VelocityExtension::next_tick(1), 2);
    assert_eq!(VelocityExtension::next_tick(997), 998);
    assert_eq!(VelocityExtension::next_tick(998), 999);
    assert_eq!(VelocityExtension::next_tick(999), 0);
    assert_eq!(VelocityExtension::next_tick(1000), 0);
    assert_eq!(VelocityExtension::next_tick(1001), 0);
    assert_eq!(VelocityExtension::next_tick(usize::MAX), 0);
    let mut tick = 0;
    let mut seen = 0;
    loop {
        tick = VelocityExtension::next_tick(tick);
        seen += 1;
        if tick == 0 {
            break;
        }
    }
    assert_eq!(seen, 1000);
}

#[test]
fn widget_with_velocity_and_rule_moves() {
    let mut widget = Widget::new(Box::new(Rect(1)));
    widget
        .component(Component::Velocity(Velocity(1000, 0)))
        .component(Component::Transform(Transform::center().margin(4, 5)));
    for tick in 0..10 {
        VelocityExtension::apply_velocity_xy(tick, &mut widget);
    }
    assert_eq!(widget.transform(), Some(Transform::center().margin(14, 5)));
    assert_eq!(widget.velocity(), Some(Velocity(1000, 0)));
}

#[test]
fn widget_with_zero_velocity_stays() {
    let mut widget = Widget::new(Box::new(Rect(1)));
    widget
        .component(Component::Velocity(Velocity(0, 0)))
        .component(Component::Transform(Transform::new().margin(4, 5)));
    for tick in 0..2500 {
        VelocityExtension::apply_velocity_xy(tick % 1000, &mut widget);
    }
    assert_eq!(widget.transform(), Some(Transform::new().margin(4, 5)));
}

#[test]
fn widget_without_velocity_or_without_rule_is_left_alone() {
    let mut no_velocity = Widget::new(Box::new(Rect(1)));
    no_velocity.component(Component::Transform(Transform::new()));
    VelocityExtension::apply_velocity_xy(0, &mut no_velocity);
    assert_eq!(no_velocity.transform(), Some(Transform::new()));
    assert_eq!(no_velocity.velocity(), None);

    let mut no_rule = Widget::new(Box::new(Rect(1)));
    no_rule.component(Component::Velocity(Velocity(1000, 1000)));
    VelocityExtension::apply_velocity_xy(0, &mut no_rule);
    assert_eq!(no_rule.transform(), None);
    assert_eq!(no_rule.velocity(), Some(Velocity(1000, 1000)));
}

#[test]
fn one_tick_moves_every_widget_and_advances_the_counter() {
    let mut widgets = Vec::new();
    for v in [Velocity(1000, -1000), Velocity(0, 500), Velocity(-250, 1)] {
        let mut w = Widget::new(Box::new(Rect(1)));
        w.component(Component::Velocity(v)).component(Component::Transform(Transform::new()));
        widgets.push(w);
    }
    widgets.push(Widget::new(Box::new(Rect(1))));
    let mut tick = 0;
    for _ in 0..5 {
        tick = VelocityExtension::tick(tick, &mut widgets);
    }
    assert_eq!(tick, 5);
    assert_eq!(widgets[0].transform(), Some(Transform::new().margin(5, -5)));
    assert_eq!(widgets[1].transform(), Some(Transform::new().margin(0, 3)));
    assert_eq!(widgets[2].transform(), Some(Transform::new().margin(-2, 1)));
    assert_eq!(widgets[3].transform(), None);
    assert_eq!(VelocityExtension::tick(998, &mut widgets), 999);
    assert_eq!(VelocityExtension::tick(999, &mut widgets), 0);
}

fn frame(button_down: bool, pointer: Option<(usize, usize)>) -> InputSnapshot {
    InputSnapshot { button_down, pointer }
}

#[test]
fn hit_test_includes_the_edges() {
    let rect = RawTransform { x: 10, y: 20, width: 5, height: 6 };
    assert!(MouseExtension::hit(&rect, 10, 20));
    assert!(MouseExtension::hit(&rect, 15, 26));
    assert!(MouseExtension::hit(&rect, 12, 23));
    assert!(!MouseExtension::hit(&rect, 9, 23));
    assert!(!MouseExtension::hit(&rect, 16, 23));
    assert!(!MouseExtension::hit(&rect, 12, 19));
    assert!(!MouseExtension::hit(&rect, 12, 27));
    let far = RawTransform { x: usize::MAX, y: usize::MAX, width: usize::MAX, height: usize::MAX };
    assert!(MouseExtension::hit(&far, usize::MAX, usize::MAX));
    assert!(!MouseExtension::hit(&far, usize::MAX - 1, usize::MAX));
    let empty = RawTransform { x: 3, y: 3, width: 0, height: 0 };
    assert!(MouseExtension::hit(&empty, 3, 3));
    assert!(!MouseExtension::hit(&empty, 4, 3));
}

#[test]
fn click_fires_once_per_press() {
    let rect = RawTransform { x: 0, y: 0, width: 10, height: 10 };
    let inside = Some((5, 5));
    let mut mouse = MouseExtension::new();
    assert!(!mouse.clicked(&rect, inside));
    mouse.sample(false);
    assert!(!mouse.clicked(&rect, inside));
    mouse.sample(true);
    assert!(mouse.clicked(&rect, inside));
    assert!(mouse.clicked(&rect, inside));
    for _ in 0..5 {
        mouse.sample(true);
        assert!(!mouse.clicked(&rect, inside));
    }
    mouse.sample(false);
    assert!(!mouse.clicked(&rect, inside));
    mouse.sample(true);
    assert!(mouse.clicked(&rect, inside));
}

#[test]
fn click_needs_the_pointer_over_the_rectangle() {
    let rect = RawTransform { x: 0, y: 0, width: 10, height: 10 };
    let mut mouse = MouseExtension::new();
    mouse.sample(true);
    assert!(!mouse.clicked(&rect, None));
    assert!(!mouse.clicked(&rect, Some((11, 5))));
    assert!(mouse.clicked(&rect, Some((10, 10))));
}

#[test]
fn hooks_dispatch_the_click_action_of_the_widget() {
    let rect = RawTransform { x: 0, y: 0, width: 10, height: 10 };
    let mut with_action = Widget::new(Box::new(Rect(1)));
    with_action.component(Component::OnClick(OnClick(42)));
    let mut without_action = Widget::new(Box::new(Rect(1)));
    let widgets = Vec::new();
    let mut mouse = MouseExtension::new();

    let down = frame(true, Some((3, 3)));
    mouse.before_render(&widgets, rect, &down);
    assert_eq!(mouse.render(&mut with_action, rect, &down), Some(OnClick(42)));
    assert_eq!(mouse.render(&mut without_action, rect, &down), None);
    assert_eq!(with_action.on_click(), Some(OnClick(42)));

    mouse.before_render(&widgets, rect, &down);
    assert_eq!(mouse.render(&mut with_action, rect, &down), None);

    let up = frame(false, Some((3, 3)));
    mouse.before_render(&widgets, rect, &up);
    assert_eq!(mouse.render(&mut with_action, rect, &up), None);

    let outside = frame(true, Some((30, 3)));
    mouse.before_render(&widgets, rect, &outside);
    assert_eq!(mouse.render(&mut with_action, rect, &outside), None);
}

#[test]
fn velocity_extension_hooks_do_nothing() {
    let rect = RawTransform::new();
    let mut widget = Widget::new(Box::new(Rect(1)));
    widget
        .component(Component::Velocity(Velocity(1000, 1000)))
        .component(Component::Transform(Transform::new()));
    let widgets = Vec::new();
    let mut ext = VelocityExtension;
    let input = frame(true, Some((0, 0)));
    ext.init(&widgets);
    ext.before_render(&widgets, rect, &input);
    assert_eq!(ext.render(&mut widget, rect, &input), None);
    assert_eq!(widget.transform(), Some(Transform::new()));
}

#[test]
fn extension_without_hooks_asks_for_nothing() {
    struct Quiet;
    impl Extension for Quiet {}
    let rect = RawTransform { x: 0, y: 0, width: 10, height: 10 };
    let mut widget = Widget::new(Box::new(Rect(1)));
    widget
        .component(Component::OnClick(OnClick(5)))
        .component(Component::Transform(Transform::center()));
    let widgets = Vec::new();
    let mut quiet = Quiet;
    let input = frame(true, Some((3, 3)));
    quiet.init(&widgets);
    quiet.before_render(&widgets, rect, &input);
    assert_eq!(quiet.render(&mut widget, rect, &input), None);
    assert_eq!(widget.on_click(), Some(OnClick(5)));
    assert_eq!(widget.transform(), Some(Transform::center()));
    assert_eq!(widget.velocity(), None);
}
