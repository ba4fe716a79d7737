use raytracer::canvas::{decimal_string, to_ppm_value, Canvas, Rgb};

type Color = (f64, f64, f64);

fn color(red: f64, green: f64, blue: f64) -> Color {
    (red, green, blue)
}

/// The levels of a colour whose channels run from 0 to 1.
fn levels(c: Color) -> Rgb {
    Rgb {
        red: (c.0 * 255.0).round() as i32,
        green: (c.1 * 255.0).round() as i32,
        blue: (c.2 * 255.0).round() as i32,
    }
}

fn image_of(colors: &Canvas<Color>) -> String {
    colors.map(levels).to_ppm()
}

#[test]
fn create_canvas() {
    let c: Canvas<Color> = Canvas::new(10, 20);

    for x in 0..10i32 {
        for y in 0..20i32 {
            assert_eq!(c.pixel_at(x, y), color(0.0, 0.0, 0.0));
        }
    }
}

#[test]
fn write_single_pixel() {
    let mut c: Canvas<Color> = Canvas::new(10, 20);
    let red = color(1.0, 0.0, 0.0);

    c.write_pixel(2, 3, red);
    assert_eq!(c.pixel_at(2, 3), red);
}

#[test]
fn canvas_ppm() {
    let mut c: Canvas<Color> = Canvas::new(5, 3);
    c.write_pixel(0, 0, color(1.5, 0.0, 0.0));
    c.write_pixel(2, 1, color(0.0, 0.5, 0.0));
    c.write_pixel(4, 2, color(-0.5, 0.0, 1.0));
    let s = image_of(&c);
    assert_eq!(
        s,
        "P3
5 3
255
255 0 0 0 0 0 0 0 0 0 0 0 0 0 0
0 0 0 0 0 0 0 128 0 0 0 0 0 0 0
0 0 0 0 0 0 0 0 0 0 0 0 0 0 255
"
    );
}

#[test]
fn canvas_ppm_max_width() {
    let s = image_of(&Canvas::new_with_color(10, 2, color(1.0, 0.8, 0.6)));
    assert_eq!(
        s,
        "P3
10 2
255
255 204 153 255 204 153 255 204 153 255 204 153 255 204 153 255 204
153 255 204 153 255 204 153 255 204 153 255 204 153
255 204 153 255 204 153 255 204 153 255 204 153 255 204 153 255 204
153 255 204 153 255 204 153 255 204 153 255 204 153
"
    );
}

#[test]
fn canvas_knows_its_size() {
    let c: Canvas<u8> = Canvas::new(10, 20);
    assert_eq!(c.get_width(), 10);
    assert_eq!(c.get_height(), 20);
}

#[test]
fn new_with_color_fills_every_pixel() {
    let c = Canvas::new_with_color(3, 2, 7u8);
    for y in 0..2 {
        for x in 0..3 {
            assert_eq!(c.pixel_at(x, y), 7);
        }
    }
}

#[test]
fn pixels_are_stored_row_by_row() {
    let mut c = Canvas::new_with_color(3, 2, 0u8);
    c.write_pixel(1, 0, 1);
    c.write_pixel(0, 1, 2);
    c.write_pixel(2, 1, 3);
    let all: Vec<u8> = (0..2)
        .flat_map(|y| (0..3).map(move |x| (x, y)))
        .map(|(x, y)| c.pixel_at(x, y))
        .collect();
    assert_eq!(all, vec![0, 1, 0, 2, 0, 3]);
    // A column past the width is the same place as one of the next row.
    assert_eq!(c.pixel_at(3, 0), 2);
}

#[test]
fn write_outside_the_canvas_changes_nothing() {
    let mut c = Canvas::new_with_color(3, 2, 0u8);
    c.write_pixel(0, 2, 9);
    c.write_pixel(3, 1, 9);
    c.write_pixel(-1, 0, 9);
    c.write_pixel(0, -1, 9);
    c.write_pixel(i32::MAX, i32::MAX, 9);
    for y in 0..2 {
        for x in 0..3 {
            assert_eq!(c.pixel_at(x, y), 0);
        }
    }
}

#[test]
fn has_pixel_tells_the_places_that_are_stored() {
    let c = Canvas::new_with_color(3, 2, 0u8);
    assert!(c.has_pixel(0, 0));
    assert!(c.has_pixel(2, 1));
    assert!(!c.has_pixel(0, 2));
    assert!(!c.has_pixel(-1, 1));
    assert!(!c.has_pixel(1, -1));
    // A column past the width counts as a place of the next row.
    assert!(c.has_pixel(3, 0));
    assert!(!c.has_pixel(3, 1));
    assert!(!Canvas::new_with_color(0, 0, 0u8).has_pixel(0, 0));
}

#[test]
fn map_keeps_the_size_and_the_places() {
    let mut c = Canvas::new_with_color(3, 2, 1u8);
    c.write_pixel(2, 0, 5);
    c.write_pixel(0, 1, 9);
    let doubled: Canvas<u16> = c.map(|p| 2 * p as u16);
    assert_eq!(doubled.get_width(), 3);
    assert_eq!(doubled.get_height(), 2);
    let all: Vec<u16> = (0..2)
        .flat_map(|y| (0..3).map(move |x| (x, y)))
        .map(|(x, y)| doubled.pixel_at(x, y))
        .collect();
    assert_eq!(all, vec![2, 2, 10, 18, 2, 2]);
}

#[test]
fn default_level_is_black() {
    assert_eq!(Rgb::default(), Rgb { red: 0, green: 0, blue: 0 });
    let image: Canvas<Rgb> = Canvas::new(2, 1);
    assert_eq!(image.to_ppm(), "P3\n2 1\n255\n0 0 0 0 0 0\n");
}

#[test]
fn canvas_without_pixels_takes_no_write() {
    let mut c = Canvas::new_with_color(0, 5, 0u8);
    c.write_pixel(0, 0, 1);
    assert_eq!(c.get_width(), 0);
    assert_eq!(c.get_height(), 5);
    let image: Canvas<Rgb> = Canvas::new(0, 5);
    assert_eq!(image.to_ppm(), "P3\n0 5\n255\n");
}

#[test]
fn levels_are_clamped_to_the_scale() {
    assert_eq!(to_ppm_value(-128), 0);
    assert_eq!(to_ppm_value(-1), 0);
    assert_eq!(to_ppm_value(0), 0);
    assert_eq!(to_ppm_value(128), 128);
    assert_eq!(to_ppm_value(255), 255);
    assert_eq!(to_ppm_value(256), 255);
    assert_eq!(to_ppm_value(383), 255);
    assert_eq!(to_ppm_value(i32::MAX), 255);
    assert_eq!(to_ppm_value(i32::MIN), 0);
}

#[test]
fn decimal_numerals() {
    assert_eq!(decimal_string(0), "0");
    assert_eq!(decimal_string(7), "7");
    assert_eq!(decimal_string(10), "10");
    assert_eq!(decimal_string(255), "255");
    assert_eq!(decimal_string(1080), "1080");
    assert_eq!(decimal_string(1234567890), "1234567890");
    assert_eq!(decimal_string(usize::MAX), usize::MAX.to_string());
}

#[test]
fn ppm_of_a_single_pixel() {
    let image = Canvas::new_with_color(1, 1, Rgb { red: 300, green: -5, blue: 17 });
    assert_eq!(image.to_ppm(), "P3\n1 1\n255\n255 0 17\n");
}

#[test]
fn ppm_lines_hold_seventy_bytes_at_most() {
    let image = Canvas::new_with_color(40, 3, Rgb { red: 255, green: 128, blue: 9 });
    let text = image.to_ppm();
    assert!(text.ends_with('\n'));
    assert!(text.lines().all(|line| line.len() <= 70));
    let numbers = text.lines().skip(3).flat_map(|line| line.split(' ')).count();
    assert_eq!(numbers, 40 * 3 * 3);
}
