use mousey::capture::Coordinate;
use mousey::segment::encode_segment;
use mousey::segment::push_decimal;

#[test]
fn two_points_render_as_one_line() {
    let buffer = vec![Coordinate::new(1, 2, 0), Coordinate::new(3, 4, 100)];
    let line = encode_segment(&buffer);
    assert_eq!(line, b"1_2,3_4\n".to_vec());
}

#[test]
fn single_point_has_no_comma() {
    let buffer = vec![Coordinate::new(10, 20, 0)];
    assert_eq!(encode_segment(&buffer), b"10_20\n".to_vec());
}

#[test]
fn empty_buffer_renders_as_bare_newline() {
    let buffer: Vec<Coordinate> = Vec::new();
    assert_eq!(encode_segment(&buffer), b"\n".to_vec());
}

#[test]
fn extreme_coordinates_render_in_full() {
    let buffer = vec![Coordinate::new(u32::MAX, 0, 0)];
    assert_eq!(encode_segment(&buffer), b"4294967295_0\n".to_vec());
}

#[test]
fn decimal_rendering_appends_digits() {
    let mut out: Vec<u8> = b"t=".to_vec();
    push_decimal(&mut out, 0);
    push_decimal(&mut out, 907);
    assert_eq!(out, b"t=0907".to_vec());
}
