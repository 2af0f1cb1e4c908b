use game_of_life::drawing::{
    build_drawing_data, help_panel_origin, parse_drawing_line, splash_fits, splash_offsets,
    DrawingCell, DrawingCoords, DrawingData,
};

fn line(s: &str) -> Vec<u8> {
    s.as_bytes().to_vec()
}

fn cell(x: u16, y: u16, r: u8, g: u8, b: u8) -> DrawingCell {
    DrawingCell { x, y, r, g, b }
}

#[test]
fn parses_five_decimal_fields() {
    assert_eq!(parse_drawing_line(&line("1 2 3 4 5")), cell(1, 2, 3, 4, 5));
    assert_eq!(parse_drawing_line(&line("  12\t34  255 0 128  ")), cell(12, 34, 255, 0, 128));
}

#[test]
fn malformed_fields_default_to_zero() {
    assert_eq!(parse_drawing_line(&line("a b c d e")), cell(0, 0, 0, 0, 0));
    assert_eq!(parse_drawing_line(&line("3 x 1 2 3")), cell(3, 0, 1, 2, 3));
    assert_eq!(parse_drawing_line(&line("-1 4 1 2 3")), cell(0, 4, 1, 2, 3));
    assert_eq!(parse_drawing_line(&line("1.5 4 1 2 3")), cell(0, 4, 1, 2, 3));
}

#[test]
fn missing_fields_default_to_zero() {
    assert_eq!(parse_drawing_line(&line("3 4")), cell(3, 4, 0, 0, 0));
    assert_eq!(parse_drawing_line(&line("")), cell(0, 0, 0, 0, 0));
    assert_eq!(parse_drawing_line(&line("   ")), cell(0, 0, 0, 0, 0));
}

#[test]
fn out_of_range_fields_default_to_zero() {
    assert_eq!(parse_drawing_line(&line("70000 1 1 1 1")), cell(0, 1, 1, 1, 1));
    assert_eq!(parse_drawing_line(&line("65535 1 256 1 1")), cell(65535, 1, 0, 1, 1));
    assert_eq!(parse_drawing_line(&line("1 1 255 1 999999999999999999999")), cell(1, 1, 255, 1, 0));
}

#[test]
fn a_leading_plus_sign_is_accepted() {
    assert_eq!(parse_drawing_line(&line("+12 +7 +1 +2 +3")), cell(12, 7, 1, 2, 3));
    assert_eq!(parse_drawing_line(&line("+ 7 1 2 3")), cell(0, 7, 1, 2, 3));
}

#[test]
fn zero_coordinate_lines_are_skipped() {
    let lines = vec![
        line("1 1 10 20 30"),
        line("0 5 1 1 1"),
        line("5 0 1 1 1"),
        line("junk junk"),
        line("4 7 9 9 9"),
    ];
    let d = build_drawing_data(&lines);
    assert_eq!(d.data, vec![cell(1, 1, 10, 20, 30), cell(4, 7, 9, 9, 9)]);
}

#[test]
fn bounding_box_is_the_componentwise_min_and_max_of_kept_cells() {
    let lines = vec![line("2 3 0 0 1"), line("10 1 0 0 1"), line("4 8 0 0 1")];
    let d = build_drawing_data(&lines);
    assert_eq!(d.min_coords, DrawingCoords { x: 2, y: 1 });
    assert_eq!(d.max_coords, DrawingCoords { x: 10, y: 8 });
}

#[test]
fn bounding_box_of_a_single_cell_is_that_cell() {
    let lines = vec![line("0 9 1 1 1"), line("7 5 1 1 1")];
    let d = build_drawing_data(&lines);
    assert_eq!(d.min_coords, DrawingCoords { x: 7, y: 5 });
    assert_eq!(d.max_coords, DrawingCoords { x: 7, y: 5 });
}

#[test]
fn empty_asset_gives_an_empty_image_at_the_origin() {
    let d = build_drawing_data(&Vec::new());
    assert!(d.data.is_empty());
    assert_eq!(d.min_coords, DrawingCoords { x: 0, y: 0 });
    assert_eq!(d.max_coords, DrawingCoords { x: 0, y: 0 });
}

fn image(min: (u16, u16), max: (u16, u16)) -> DrawingData {
    DrawingData {
        data: Vec::new(),
        min_coords: DrawingCoords { x: min.0, y: min.1 },
        max_coords: DrawingCoords { x: max.0, y: max.1 },
    }
}

#[test]
fn splash_fits_needs_room_for_the_menu() {
    let d = image((0, 0), (20, 10));
    assert!(splash_fits(&d, 30, 30));
    // 10 + 15 == 25, not strictly under 25
    assert!(!splash_fits(&d, 30, 25));
    assert!(!splash_fits(&d, 20, 30));
}

#[test]
fn splash_offsets_center_the_image() {
    let d = image((0, 0), (20, 10));
    assert_eq!(splash_offsets(&d, 45, 35), ((45 - 20 - 5) / 2, (35 - 10 - 15) / 2));
    assert_eq!(splash_offsets(&d, 26, 26), (0, 0));
}

#[test]
fn help_panel_is_centered_or_sits_under_the_splash() {
    assert_eq!(help_panel_origin(80, 24, 0), ((80 - 14) / 2, (24 - 10) / 2));
    assert_eq!(help_panel_origin(80, 24, 12), ((80 - 14) / 2, 14));
    // narrow and short viewports clamp to the top-left corner
    assert_eq!(help_panel_origin(13, 9, 0), (0, 0));
    assert_eq!(help_panel_origin(15, 9, 0), (0, 0));
}
