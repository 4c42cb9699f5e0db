use osgui::elements::div::{Div, DivStyle};
use osgui::elements::{custom, Label, Rect, LABEL_COLOR};
use osgui::extensions::mouse::OnClick;
use osgui::extensions::velocity::Velocity;
use osgui::raster::{new_frame, CoverageSample, COVERAGE_FULL, COVERAGE_HALF};
use osgui::render::{RenderScope, TextRaster};
use osgui::style::{RawTransform, Transform};
use osgui::widget::{Component, ComponentKind, ComponentStore, Element, Widget};

const RED: u32 = 0xFF0000;
const GREEN: u32 = 0x00FF00;
const GREY: u32 = 0x111111;

#[test]
fn empty_store_has_nothing() {
    let store = ComponentStore::new();
    assert_eq!(store.fetch(ComponentKind::Transform), None);
    assert_eq!(store.fetch(ComponentKind::Velocity), None);
    assert_eq!(store.fetch(ComponentKind::OnClick), None);
}

#[test]
fn fetch_returns_what_was_attached() {
    let mut store = ComponentStore::new();
    store.attach(Component::Velocity(Velocity(3, -4)));
    assert_eq!(store.fetch(ComponentKind::Velocity), Some(Component::Velocity(Velocity(3, -4))));
    assert_eq!(store.fetch(ComponentKind::Transform), None);
    assert_eq!(store.fetch(ComponentKind::OnClick), None);
}

#[test]
fn last_write_wins_and_other_types_stay() {
    let mut store = ComponentStore::new();
    store.attach(Component::Velocity(Velocity(1, 1)));
    store.attach(Component::Transform(Transform::center()));
    store.attach(Component::OnClick(OnClick(9)));
    store.attach(Component::Velocity(Velocity(2, 2)));
    store.attach(Component::Transform(Transform::new()));
    store.attach(Component::Velocity(Velocity(3, 3)));
    assert_eq!(store.fetch(ComponentKind::Velocity), Some(Component::Velocity(Velocity(3, 3))));
    assert_eq!(store.fetch(ComponentKind::Transform), Some(Component::Transform(Transform::new())));
    assert_eq!(store.fetch(ComponentKind::OnClick), Some(Component::OnClick(OnClick(9))));
}

#[test]
fn kinds_name_the_types() {
    assert_eq!(Component::Transform(Transform::new()).kind(), ComponentKind::Transform);
    assert_eq!(Component::Velocity(Velocity(0, 0)).kind(), ComponentKind::Velocity);
    assert_eq!(Component::OnClick(OnClick(0)).kind(), ComponentKind::OnClick);
}

#[test]
fn widget_attributes_can_be_chained_and_replaced() {
    let mut widget = Widget::new(Box::new(Rect(RED)));
    assert_eq!(widget.transform(), None);
    assert_eq!(widget.velocity(), None);
    assert_eq!(widget.on_click(), None);
    widget
        .component(Component::Transform(Transform::center()))
        .component(Component::OnClick(OnClick(1)))
        .component(Component::Velocity(Velocity(5, 6)));
    assert_eq!(widget.transform(), Some(Transform::center()));
    assert_eq!(widget.on_click(), Some(OnClick(1)));
    assert_eq!(widget.velocity(), Some(Velocity(5, 6)));
    widget.set_component(Component::OnClick(OnClick(2)));
    assert_eq!(widget.on_click(), Some(OnClick(2)));
    assert_eq!(widget.get(ComponentKind::OnClick), Some(Component::OnClick(OnClick(2))));
    assert_eq!(widget.transform(), Some(Transform::center()));
}

#[test]
fn rect_fills_the_size_it_finds() {
    let mut scope = RenderScope::new(6, 6);
    scope.set_transform(&Transform::new().dimensions(2, 3).margin(1, 1));
    Rect(RED).render(&mut scope);
    assert_eq!(scope.get_size(), (2, 3));
    scope.draw();
    let buf = scope.get_buffer();
    for y in 0..6 {
        for x in 0..6 {
            let inside = (1..3).contains(&x) && (1..4).contains(&y);
            assert_eq!(buf[y][x], if inside { RED } else { 0 });
        }
    }
}

#[test]
fn transparent_rect_records_nothing() {
    let mut scope = RenderScope::new(6, 6);
    scope.set_transform(&Transform::new().dimensions(2, 3));
    Rect(0).render(&mut scope);
    assert_eq!(scope.get_max_size(), (0, 0));
    scope.draw();
    assert_eq!(scope.get_buffer(), new_frame(6, 6));
}

#[test]
fn widget_is_laid_out_around_its_content() {
    struct Blob;
    impl Element for Blob {
        fn render(&mut self, scope: &mut RenderScope) {
            scope.draw_rect(0, 0, 40, 10, RED);
        }
    }
    let mut widget = Widget::new(Box::new(Blob));
    widget.component(Component::Transform(Transform::center().bottom()));
    let mut scope = RenderScope::new(200, 100);
    scope.draw_rect(0, 0, 150, 90, GREEN);
    widget.render(&mut scope);
    assert_eq!(scope.get_transform(), RawTransform { x: 80, y: 90, width: 40, height: 10 });
    assert_eq!(widget.transform(), Some(Transform::center().bottom()));
    scope.draw();
    let buf = scope.get_buffer();
    assert_eq!(buf[90][80], RED);
    assert_eq!(buf[99][119], RED);
    assert_eq!(buf[89][80], 0);
    assert_eq!(buf[90][120], 0);
    assert_eq!(buf[0][0], 0);
}

#[test]
fn widget_without_rule_keeps_the_position_of_the_scope() {
    let mut widget = Widget::new(Box::new(Rect(RED)));
    let mut scope = RenderScope::new(4, 4);
    scope.set_transform(&Transform::new().margin(2, 1).dimensions(3, 3));
    widget.render(&mut scope);
    assert_eq!(scope.get_transform(), RawTransform { x: 2, y: 1, width: 0, height: 0 });
}

#[test]
fn div_defaults() {
    let style = DivStyle::default();
    assert_eq!(style, DivStyle { background_color: 0, corner_radius: 0 });
    let div = Div::default();
    assert_eq!(div.children.len(), 0);
    assert_eq!(div.style, style);
}

#[test]
fn div_draw_adds_children_in_order() {
    let mut div = Div::default();
    div.draw(Rect(RED)).component(Component::OnClick(OnClick(1)));
    div.draw(Rect(GREEN));
    assert_eq!(div.children.len(), 2);
    assert_eq!(div.children[0].on_click(), Some(OnClick(1)));
    assert_eq!(div.children[1].on_click(), None);
}

#[test]
fn div_paints_background_then_children() {
    let mut div = Div::default();
    div.style = DivStyle { background_color: GREY, corner_radius: 0 };
    div.draw(Rect(GREEN))
        .component(Component::Transform(Transform::center().dimensions(1, 1)));
    div.draw(Rect(RED))
        .component(Component::Transform(Transform::new().dimensions(2, 1).margin(3, 4)));
    let mut scope = RenderScope::new(5, 5);
    div.render(&mut scope);
    assert_eq!(scope.get_size(), (5, 5));
    assert_eq!(scope.get_buffer(), new_frame(5, 5));
    assert_eq!(div.children.len(), 2);
    scope.draw();
    let buf = scope.get_buffer();
    for y in 0..5 {
        for x in 0..5 {
            let expected = if (x, y) == (2, 2) {
                GREEN
            } else if (x == 3 || x == 4) && y == 4 {
                RED
            } else {
                GREY
            };
            assert_eq!(buf[y][x], expected, "pixel ({}, {})", x, y);
        }
    }
}

#[test]
fn div_with_rounded_background() {
    let mut div = Div::default();
    div.style = DivStyle { background_color: GREY, corner_radius: 4 };
    let mut scope = RenderScope::new(10, 10);
    div.render(&mut scope);
    scope.draw();
    let buf = scope.get_buffer();
    assert_eq!(buf[0][0], 0);
    assert_eq!(buf[9][9], 0);
    assert_eq!(buf[0][1], GREY);
    assert_eq!(buf[4][4], GREY);
}

#[test]
fn div_takes_its_own_size_where_it_has_one() {
    let mut div = Div::default();
    div.style = DivStyle { background_color: GREY, corner_radius: 0 };
    div.draw(Rect(RED)).component(Component::Transform(Transform::new().dimensions(1, 1)));
    let mut widget = Widget::new(Box::new(div));
    widget.component(Component::Transform(Transform::new().dimensions(3, 2).margin(1, 1)));
    let mut scope = RenderScope::new(6, 6);
    widget.render(&mut scope);
    assert_eq!(scope.get_transform(), RawTransform { x: 1, y: 1, width: 3, height: 2 });
    scope.draw();
    let buf = scope.get_buffer();
    for y in 0..6 {
        for x in 0..6 {
            let expected = if (x, y) == (1, 1) {
                RED
            } else if (1..4).contains(&x) && (1..3).contains(&y) {
                GREY
            } else {
                0
            };
            assert_eq!(buf[y][x], expected, "pixel ({}, {})", x, y);
        }
    }
}

#[test]
fn div_children_are_painted_whole_inside_a_div_away_from_the_origin() {
    let mut div = Div::default();
    div.style = DivStyle { background_color: GREY, corner_radius: 0 };
    div.draw(Rect(RED)).component(Component::Transform(Transform::new().dimensions(3, 2)));
    let mut widget = Widget::new(Box::new(div));
    widget.component(Component::Transform(Transform::new().dimensions(3, 2).margin(2, 3)));
    let mut scope = RenderScope::new(6, 6);
    widget.render(&mut scope);
    scope.draw();
    let buf = scope.get_buffer();
    for y in 0..6 {
        for x in 0..6 {
            let expected = if (2..5).contains(&x) && (3..5).contains(&y) { RED } else { 0 };
            assert_eq!(buf[y][x], expected, "pixel ({}, {})", x, y);
        }
    }
}

#[test]
fn div_children_are_clipped_where_the_div_ends() {
    let mut div = Div::default();
    div.style = DivStyle { background_color: GREY, corner_radius: 0 };
    div.draw(Rect(RED)).component(Component::Transform(Transform::new().dimensions(2, 5)));
    let mut widget = Widget::new(Box::new(div));
    widget.component(Component::Transform(Transform::new().dimensions(3, 2).margin(1, 1)));
    let mut scope = RenderScope::new(6, 6);
    widget.render(&mut scope);
    scope.draw();
    let buf = scope.get_buffer();
    // The div spans columns 1 to 3 and rows 1 to 2 of the buffer; the child,
    // two wide and five high, is cut off below row 2.
    for y in 0..6 {
        for x in 0..6 {
            let expected = if (1..3).contains(&x) && (1..3).contains(&y) {
                RED
            } else if x == 3 && (1..3).contains(&y) {
                GREY
            } else {
                0
            };
            assert_eq!(buf[y][x], expected, "pixel ({}, {})", x, y);
        }
    }
}

#[test]
fn div_without_background_still_merges_children() {
    let mut div = Div::default();
    div.draw(Rect(RED)).component(Component::Transform(Transform::new().dimensions(2, 2)));
    let mut scope = RenderScope::new(3, 3);
    div.render(&mut scope);
    assert_eq!(scope.get_size(), (2, 2));
    scope.draw();
    assert_eq!(
        scope.get_buffer(),
        vec![vec![RED, RED, 0], vec![RED, RED, 0], vec![0, 0, 0]]
    );
}

#[test]
fn custom_element_draws_by_calling_its_function() {
    let mut element = custom(|scope: &mut RenderScope| {
        scope.draw_rect(0, 0, 2, 1, RED);
        scope.draw_rect(2, 0, 1, 1, GREEN);
    });
    let mut scope = RenderScope::new(4, 1);
    element.render(&mut scope);
    assert_eq!(scope.get_size(), (2, 1));
    element.render(&mut scope);
    scope.draw();
    assert_eq!(scope.get_buffer(), vec![vec![RED, RED, GREEN, 0]]);
}

#[test]
fn custom_element_can_be_a_widget() {
    let width = 3;
    let mut widget = Widget::new(Box::new(custom(move |scope: &mut RenderScope| {
        scope.draw_rect(0, 0, width, 1, RED);
    })));
    widget.component(Component::Transform(Transform::new().bottom()));
    let mut scope = RenderScope::new(4, 2);
    widget.render(&mut scope);
    assert_eq!(scope.get_transform(), RawTransform { x: 0, y: 1, width: 3, height: 1 });
    scope.draw();
    assert_eq!(scope.get_buffer(), vec![vec![0, 0, 0, 0], vec![RED, RED, RED, 0]]);
}

#[test]
fn label_records_its_text_in_white() {
    assert_eq!(LABEL_COLOR, 0xFFFFFF);
    let mut label = Label {
        text: "hi".to_string(),
        raster: TextRaster {
            width: 3,
            height: 2,
            samples: vec![
                CoverageSample { dx: 0, dy: 0, coverage: COVERAGE_FULL },
                CoverageSample { dx: 2, dy: 1, coverage: COVERAGE_HALF },
            ],
        },
    };
    let mut scope = RenderScope::new(4, 3);
    scope.set_transform(&Transform::new().margin(1, 1));
    label.render(&mut scope);
    assert_eq!(scope.get_size(), (3, 2));
    assert_eq!(label.text, "hi");
    assert_eq!(label.raster.samples.len(), 2);
    scope.draw();
    assert_eq!(
        scope.get_buffer(),
        vec![vec![0, 0, 0, 0], vec![0, 0xFFFFFF, 0, 0], vec![0, 0, 0, 0x7F7F7F]]
    );
}
