use osgui::style::{Dimension, Position, RawTransform, Transform};

fn resolve_axis(p: Position, size: usize, parent: usize, m: i32) -> usize {
    let mut r = 12345;
    p.use_position(size, parent, m, &mut r);
    r
}

#[test]
fn center_of_200_with_content_40_is_80() {
    assert_eq!(resolve_axis(Position::Center, 40, 200, 0), 80);
}

#[test]
fn end_of_200_with_content_40_is_160() {
    assert_eq!(resolve_axis(Position::End, 40, 200, 0), 160);
}

#[test]
fn const_30_with_margin_5_is_35() {
    assert_eq!(resolve_axis(Position::Const(30), 40, 200, 5), 35);
}

#[test]
fn negative_margin_moves_towards_origin() {
    assert_eq!(resolve_axis(Position::Const(30), 40, 200, -5), 25);
    assert_eq!(resolve_axis(Position::End, 40, 200, -160), 0);
}

#[test]
fn offset_below_zero_is_clamped_to_zero() {
    assert_eq!(resolve_axis(Position::Const(3), 40, 200, -5), 0);
    assert_eq!(resolve_axis(Position::Const(0), 0, 0, i32::MIN), 0);
    assert_eq!(resolve_axis(Position::End, 300, 200, 0), 0);
    assert_eq!(resolve_axis(Position::Center, 300, 200, 0), 0);
}

#[test]
fn content_wider_than_parent_is_anchored_with_signed_offset() {
    assert_eq!(resolve_axis(Position::End, 300, 200, 130), 30);
    assert_eq!(resolve_axis(Position::Center, 300, 200, 60), 10);
    assert_eq!(resolve_axis(Position::Center, 301, 200, 60), 10);
}

#[test]
fn offset_above_the_largest_index_is_clamped() {
    assert_eq!(resolve_axis(Position::Const(usize::MAX), 0, 0, 1), usize::MAX);
    assert_eq!(resolve_axis(Position::Const(usize::MAX - 1), 0, 0, 1), usize::MAX);
    assert_eq!(resolve_axis(Position::Const(usize::MAX), 0, 0, -1), usize::MAX - 1);
}

#[test]
fn center_rounds_down() {
    assert_eq!(resolve_axis(Position::Center, 40, 201, 0), 80);
    assert_eq!(resolve_axis(Position::Center, 0, 1, 0), 0);
}

#[test]
fn dimension_auto_keeps_content_size() {
    let mut size = 17;
    Dimension::Auto.use_dimension(&mut size);
    assert_eq!(size, 17);
}

#[test]
fn dimension_const_overwrites_content_size() {
    let mut size = 17;
    Dimension::Const(4).use_dimension(&mut size);
    assert_eq!(size, 4);
}

#[test]
fn new_rule_is_top_left_and_auto() {
    let t = Transform::new();
    assert_eq!(t.x, Position::Const(0));
    assert_eq!(t.y, Position::Const(0));
    assert_eq!(t.mx, 0);
    assert_eq!(t.my, 0);
    assert_eq!(t.width, Dimension::Auto);
    assert_eq!(t.height, Dimension::Auto);
}

#[test]
fn center_rule_centers_both_axes() {
    let t = Transform::center();
    assert_eq!(t.x, Position::Center);
    assert_eq!(t.y, Position::Center);
    assert_eq!(t.mx, 0);
    assert_eq!(t.my, 0);
    assert_eq!(t.width, Dimension::Auto);
    assert_eq!(t.height, Dimension::Auto);
}

#[test]
fn builders_change_only_their_fields() {
    let t = Transform::center().bottom();
    assert_eq!(t, Transform { y: Position::End, ..Transform::center() });
    let t = Transform::new().margin(-3, 9);
    assert_eq!(t, Transform { mx: -3, my: 9, ..Transform::new() });
    let t = Transform::center().dimensions(7, 8);
    assert_eq!(
        t,
        Transform { width: Dimension::Const(7), height: Dimension::Const(8), ..Transform::center() }
    );
}

#[test]
fn raw_transform_starts_empty() {
    assert_eq!(RawTransform::new(), RawTransform { x: 0, y: 0, width: 0, height: 0 });
}

#[test]
fn use_dimensions_leaves_position_alone() {
    let mut raw = RawTransform { x: 3, y: 4, width: 10, height: 20 };
    Transform::new().dimensions(7, 8).use_dimensions(&mut raw);
    assert_eq!(raw, RawTransform { x: 3, y: 4, width: 7, height: 8 });
    let mut raw = RawTransform { x: 3, y: 4, width: 10, height: 20 };
    Transform::new().use_dimensions(&mut raw);
    assert_eq!(raw, RawTransform { x: 3, y: 4, width: 10, height: 20 });
}

#[test]
fn use_position_uses_the_sizes_it_finds() {
    let mut raw = RawTransform { x: 99, y: 99, width: 40, height: 10 };
    Transform::center().bottom().margin(1, -2).use_position(200, 100, &mut raw);
    assert_eq!(raw, RawTransform { x: 81, y: 88, width: 40, height: 10 });
}

#[test]
fn resolving_twice_gives_the_same_rectangle() {
    let rule = Transform::center().bottom().margin(4, -6).dimensions(30, 0);
    let mut once = RawTransform { x: 1, y: 2, width: 50, height: 60 };
    rule.use_dimensions(&mut once);
    rule.use_position(200, 100, &mut once);
    let mut twice = once;
    rule.use_dimensions(&mut twice);
    rule.use_position(200, 100, &mut twice);
    assert_eq!(once, twice);
    assert_eq!(once, RawTransform { x: 89, y: 94, width: 30, height: 0 });

    let mut other_start = RawTransform { x: 77, y: 78, width: 50, height: 60 };
    rule.use_dimensions(&mut other_start);
    rule.use_position(200, 100, &mut other_start);
    assert_eq!(once, other_start);
}
