use osgui::raster::{
    apply_samples, clear_frame, copy_frame, fill_rect, fill_rounded_rect, flatten_frame,
    new_frame, shade_color, CoverageSample, COVERAGE_FULL, COVERAGE_HALF,
};

const RED: u32 = 0xFF0000;

#[test]
fn new_frame_is_background() {
    let buf = new_frame(3, 2);
    assert_eq!(buf, vec![vec![0, 0, 0], vec![0, 0, 0]]);
    assert_eq!(new_frame(0, 2), vec![Vec::<u32>::new(), Vec::new()]);
    assert_eq!(new_frame(3, 0), Vec::<Vec<u32>>::new());
}

#[test]
fn fill_rect_paints_exactly_the_rectangle() {
    let mut buf = new_frame(4, 3);
    fill_rect(&mut buf, 1, 1, 2, 1, 4, 3, RED);
    assert_eq!(buf, vec![vec![0, 0, 0, 0], vec![0, RED, RED, 0], vec![0, 0, 0, 0]]);
}

#[test]
fn fill_rect_is_clipped_to_the_buffer() {
    let mut buf = new_frame(3, 2);
    fill_rect(&mut buf, 2, 1, 10, 10, 100, 100, RED);
    assert_eq!(buf, vec![vec![0, 0, 0], vec![0, 0, RED]]);
    let mut buf = new_frame(3, 2);
    fill_rect(&mut buf, 3, 0, 10, 10, 100, 100, RED);
    assert_eq!(buf, new_frame(3, 2));
    fill_rect(&mut buf, 0, 2, 10, 10, 100, 100, RED);
    assert_eq!(buf, new_frame(3, 2));
}

#[test]
fn fill_rect_is_clipped_to_the_clip_bounds() {
    let mut buf = new_frame(4, 4);
    fill_rect(&mut buf, 0, 0, 4, 4, 2, 3, RED);
    assert_eq!(
        buf,
        vec![vec![RED, RED, 0, 0], vec![RED, RED, 0, 0], vec![RED, RED, 0, 0], vec![0, 0, 0, 0]]
    );
}

#[test]
fn fill_rect_survives_extreme_coordinates() {
    let mut buf = new_frame(2, 2);
    fill_rect(&mut buf, usize::MAX, usize::MAX, usize::MAX, usize::MAX, usize::MAX, usize::MAX, RED);
    assert_eq!(buf, new_frame(2, 2));
    fill_rect(&mut buf, 1, 1, usize::MAX, usize::MAX, usize::MAX, usize::MAX, RED);
    assert_eq!(buf, vec![vec![0, 0], vec![0, RED]]);
}

#[test]
fn fill_rect_handles_ragged_rows() {
    let mut buf = vec![vec![0; 4], vec![0; 1], vec![], vec![0; 3]];
    fill_rect(&mut buf, 1, 0, 2, 4, 10, 10, RED);
    assert_eq!(buf, vec![vec![0, RED, RED, 0], vec![0], vec![], vec![0, RED, RED]]);
}

#[test]
fn rounded_rect_with_radius_zero_is_the_rectangle() {
    let mut plain = new_frame(7, 6);
    let mut rounded = new_frame(7, 6);
    fill_rect(&mut plain, 1, 2, 5, 3, 6, 6, RED);
    fill_rounded_rect(&mut rounded, 1, 2, 5, 3, 0, 6, 6, RED);
    assert_eq!(plain, rounded);
}

#[test]
fn rounded_rect_drops_the_corner_pixels() {
    let mut buf = new_frame(10, 10);
    fill_rounded_rect(&mut buf, 0, 0, 10, 10, 4, 10, 10, RED);
    for y in 0..10 {
        for x in 0..10 {
            let corner = (x == 0 || x == 9) && (y == 0 || y == 9);
            assert_eq!(buf[y][x], if corner { 0 } else { RED }, "pixel ({}, {})", x, y);
        }
    }
}

#[test]
fn rounded_rect_with_overlapping_corner_squares() {
    let mut buf = new_frame(10, 10);
    fill_rounded_rect(&mut buf, 0, 0, 10, 10, 6, 10, 10, RED);
    assert_eq!(buf[0][0], 0);
    assert_eq!(buf[1][0], 0);
    assert_eq!(buf[0][1], 0);
    assert_eq!(buf[1][1], RED);
    assert_eq!(buf[2][0], RED);
    assert_eq!(buf[0][2], RED);
    assert_eq!(buf[5][5], RED);
    // The column 4 belongs to the top-left square, whose inner corner is (5, 5).
    assert_eq!(buf[0][4], RED);
    // The column 6 belongs to the top-right square, whose inner corner is (4, 5).
    assert_eq!(buf[0][9], 0);
    assert_eq!(buf[0][8], 0);
    assert_eq!(buf[1][8], RED);
    assert_eq!(buf[9][9], 0);
    assert_eq!(buf[9][0], 0);
}

#[test]
fn rounded_rect_with_huge_radius_paints_nothing_far_from_the_centre() {
    let mut buf = new_frame(3, 3);
    fill_rounded_rect(&mut buf, 0, 0, 3, 3, usize::MAX, 3, 3, RED);
    assert_eq!(buf, new_frame(3, 3));
}

#[test]
fn rounded_rect_is_offset_and_clipped() {
    let mut buf = new_frame(12, 12);
    fill_rounded_rect(&mut buf, 3, 3, 10, 10, 4, 11, 12, RED);
    assert_eq!(buf[3][3], 0);
    assert_eq!(buf[3][4], RED);
    assert_eq!(buf[4][3], RED);
    assert_eq!(buf[2][4], 0);
    assert_eq!(buf[11][10], RED);
    assert_eq!(buf[11][11], 0);
}

#[test]
fn shade_scales_each_channel_and_rounds_down() {
    assert_eq!(shade_color(0xFFFFFF, COVERAGE_FULL), 0xFFFFFF);
    assert_eq!(shade_color(0xFFFFFF, COVERAGE_HALF), 0x7F7F7F);
    assert_eq!(shade_color(0x102030, 0xC0_0000), 0x0C1824);
    assert_eq!(shade_color(0x102030, 0), 0);
    assert_eq!(shade_color(0x010101, COVERAGE_FULL - 1), 0);
}

#[test]
fn shade_drops_the_top_byte_and_caps_the_coverage() {
    assert_eq!(shade_color(0xAB123456, COVERAGE_FULL), 0x123456);
    assert_eq!(shade_color(0x123456, u32::MAX), 0x123456);
}

#[test]
fn samples_below_half_are_skipped() {
    let mut buf = new_frame(3, 1);
    let samples = vec![
        CoverageSample { dx: 0, dy: 0, coverage: COVERAGE_HALF - 1 },
        CoverageSample { dx: 1, dy: 0, coverage: COVERAGE_HALF },
        CoverageSample { dx: 2, dy: 0, coverage: COVERAGE_FULL },
    ];
    apply_samples(&mut buf, 0, 0, &samples, 0xFFFFFF);
    assert_eq!(buf, vec![vec![0, 0x7F7F7F, 0xFFFFFF]]);
}

#[test]
fn samples_overwrite_and_later_samples_win() {
    let mut buf = vec![vec![0x00FF00; 2]; 2];
    let samples = vec![
        CoverageSample { dx: 0, dy: 1, coverage: COVERAGE_FULL },
        CoverageSample { dx: 0, dy: 1, coverage: COVERAGE_HALF },
    ];
    apply_samples(&mut buf, 1, 0, &samples, 0xFF0000);
    assert_eq!(buf, vec![vec![0x00FF00, 0x00FF00], vec![0x00FF00, 0x7F0000]]);
}

#[test]
fn samples_outside_the_buffer_are_skipped() {
    let mut buf = new_frame(2, 2);
    let samples = vec![
        CoverageSample { dx: 2, dy: 0, coverage: COVERAGE_FULL },
        CoverageSample { dx: 0, dy: 2, coverage: COVERAGE_FULL },
        CoverageSample { dx: i64::MAX, dy: i64::MAX, coverage: COVERAGE_FULL },
        CoverageSample { dx: -1, dy: 0, coverage: COVERAGE_FULL },
        CoverageSample { dx: 0, dy: -1, coverage: COVERAGE_FULL },
        CoverageSample { dx: i64::MIN, dy: i64::MIN, coverage: COVERAGE_FULL },
    ];
    apply_samples(&mut buf, 0, 0, &samples, 0xFFFFFF);
    assert_eq!(buf, new_frame(2, 2));
    apply_samples(&mut buf, usize::MAX, 1, &samples, 0xFFFFFF);
    assert_eq!(buf, new_frame(2, 2));
}

#[test]
fn samples_left_of_or_above_the_origin_are_painted_where_they_land() {
    let mut buf = new_frame(3, 3);
    let samples = vec![
        CoverageSample { dx: -1, dy: 0, coverage: COVERAGE_FULL },
        CoverageSample { dx: 0, dy: -1, coverage: COVERAGE_HALF },
        CoverageSample { dx: -2, dy: -2, coverage: COVERAGE_FULL },
    ];
    apply_samples(&mut buf, 1, 1, &samples, 0xFFFFFF);
    assert_eq!(buf, vec![vec![0, 0x7F7F7F, 0], vec![0xFFFFFF, 0, 0], vec![0, 0, 0]]);
}

#[test]
fn clear_frame_keeps_the_shape() {
    let mut buf = vec![vec![1, 2, 3], vec![], vec![4]];
    clear_frame(&mut buf);
    assert_eq!(buf, vec![vec![0, 0, 0], vec![], vec![0]]);
}

#[test]
fn copy_and_flatten() {
    let buf = vec![vec![1, 2, 3], vec![], vec![4], vec![5, 6]];
    assert_eq!(copy_frame(&buf), buf);
    assert_eq!(flatten_frame(&buf), vec![1, 2, 3, 4, 5, 6]);
    assert_eq!(flatten_frame(&Vec::new()), Vec::<u32>::new());
}
