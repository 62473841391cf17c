use raytrace::frame::{draw, pixel_count, pixel_position, PixelPos, TOP_ROW};

#[test]
fn pixel_count_takes_whole_pixels() {
    assert_eq!(pixel_count(0), 0);
    assert_eq!(pixel_count(3), 0);
    assert_eq!(pixel_count(8), 2);
    assert_eq!(pixel_count(400 * 225 * 4), 90000);
    assert_eq!(pixel_count(401 * 4 + 3), 401);
}

#[test]
fn first_pixel_sits_in_column_zero_of_the_top_row() {
    assert_eq!(pixel_position(0, 400), PixelPos { x: 0, y: TOP_ROW });
    assert_eq!(pixel_position(0, 400), PixelPos { x: 0, y: 256 });
}

#[test]
fn rows_count_down_from_the_top_row() {
    assert_eq!(pixel_position(399, 400), PixelPos { x: 399, y: 256 });
    assert_eq!(pixel_position(400, 400), PixelPos { x: 0, y: 255 });
    assert_eq!(pixel_position(401, 400), PixelPos { x: 1, y: 255 });
    // last pixel of a 400 x 225 frame
    assert_eq!(pixel_position(89999, 400), PixelPos { x: 399, y: 32 });
}

#[test]
fn rows_below_zero_are_negative() {
    assert_eq!(pixel_position(300, 1), PixelPos { x: 0, y: -44 });
}

#[test]
fn largest_index_still_has_a_row() {
    let p = pixel_position(usize::MAX, u32::MAX);
    assert_eq!(p.x as usize, usize::MAX % (u32::MAX as usize));
    assert_eq!(p.y, 256 - (usize::MAX / (u32::MAX as usize)) as i64);
}

#[test]
fn draw_writes_each_pixel_in_place() {
    let mut frame = vec![0u8; 12];
    let colors = vec![[1u8, 2, 3, 255], [4, 5, 6, 255], [7, 8, 9, 255]];
    draw(&mut frame, &colors);
    assert_eq!(frame, vec![1, 2, 3, 255, 4, 5, 6, 255, 7, 8, 9, 255]);
}

#[test]
fn draw_leaves_trailing_bytes() {
    let mut frame = vec![42u8; 7];
    let colors = vec![[255u8, 0, 128, 255]];
    draw(&mut frame, &colors);
    assert_eq!(frame, vec![255, 0, 128, 255, 42, 42, 42]);
}

#[test]
fn draw_on_empty_frame_does_nothing() {
    let mut frame: Vec<u8> = Vec::new();
    draw(&mut frame, &Vec::new());
    assert!(frame.is_empty());
}

#[test]
fn drawing_twice_gives_identical_bytes() {
    let colors: Vec<[u8; 4]> = (0..6u8).map(|i| [i, 2 * i, 3 * i, 255]).collect();
    let mut once = vec![17u8; 24];
    draw(&mut once, &colors);
    let mut twice = once.clone();
    draw(&mut twice, &colors);
    assert_eq!(once, twice);
}

#[test]
fn draw_result_does_not_depend_on_old_contents() {
    let colors: Vec<[u8; 4]> = (0..6u8).map(|i| [i, 10 + i, 20 + i, 255]).collect();
    let mut a = vec![0u8; 24];
    let mut b: Vec<u8> = (0..24u8).collect();
    draw(&mut a, &colors);
    draw(&mut b, &colors);
    assert_eq!(a, b);
}

#[test]
fn pixels_drawn_one_by_one_in_reverse_match_draw() {
    let colors: Vec<[u8; 4]> = (0..5u8).map(|i| [i, i + 1, i + 2, 255]).collect();
    let mut whole = vec![0u8; 20];
    draw(&mut whole, &colors);
    let mut piecewise = vec![0u8; 20];
    for i in (0..5).rev() {
        draw(&mut piecewise[4 * i..4 * i + 4], &vec![colors[i]]);
    }
    assert_eq!(whole, piecewise);
}
