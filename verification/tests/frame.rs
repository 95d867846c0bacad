use fractal::error::ConfigError;
use fractal::escape::EscapeResult;
use fractal::frame::{paint_pixel, render, render_row, Frame};
use fractal::palette::{Palette, Rgb};
use fractal::resolution::Resolution;

fn resolution(width: u32, height: u32) -> Resolution {
    Resolution::new(width, height).unwrap()
}

fn diagonal(x: u32, y: u32) -> EscapeResult {
    EscapeResult { count: (x + 10 * y) as u64, escaped: (x + y) % 2 == 0 }
}

#[test]
fn a_blank_frame_holds_three_zero_bytes_for_each_pixel() {
    let frame = Frame::blank(resolution(5, 3)).unwrap();
    assert_eq!(frame.resolution(), resolution(5, 3));
    assert_eq!(frame.row_bytes(), 15);
    assert_eq!(frame.into_bytes(), vec![0u8; 45]);
}

#[test]
fn a_blank_frame_of_one_pixel() {
    let frame = Frame::blank(resolution(1, 1)).unwrap();
    assert_eq!(frame.into_bytes(), vec![0u8, 0, 0]);
}

#[test]
fn a_frame_too_large_for_a_buffer_is_refused() {
    assert!(matches!(
        Frame::blank(resolution(u32::MAX, u32::MAX)),
        Err(ConfigError::FrameTooLarge)
    ));
    let palette = Palette::new(vec![1]).unwrap();
    assert!(matches!(
        render(resolution(u32::MAX, u32::MAX), &palette, diagonal),
        Err(ConfigError::FrameTooLarge)
    ));
}

#[test]
fn a_buffer_of_the_wrong_length_is_refused() {
    let res = resolution(2, 2);
    assert!(matches!(Frame::from_bytes(res, vec![0u8; 11]), Err(ConfigError::LengthMismatch)));
    assert!(matches!(Frame::from_bytes(res, vec![0u8; 13]), Err(ConfigError::LengthMismatch)));
    assert!(matches!(Frame::from_bytes(res, Vec::new()), Err(ConfigError::LengthMismatch)));
    assert!(matches!(
        Frame::from_bytes(resolution(u32::MAX, u32::MAX), vec![0u8; 12]),
        Err(ConfigError::LengthMismatch)
    ));
}

#[test]
fn a_buffer_of_the_right_length_is_taken_as_it_is() {
    let bytes: Vec<u8> = (0..12).collect();
    let frame = Frame::from_bytes(resolution(2, 2), bytes.clone()).unwrap();
    assert_eq!(frame.resolution(), resolution(2, 2));
    assert_eq!(frame.pixel(0, 0), Some(Rgb { red: 0, green: 1, blue: 2 }));
    assert_eq!(frame.pixel(1, 0), Some(Rgb { red: 3, green: 4, blue: 5 }));
    assert_eq!(frame.pixel(0, 1), Some(Rgb { red: 6, green: 7, blue: 8 }));
    assert_eq!(frame.pixel(1, 1), Some(Rgb { red: 9, green: 10, blue: 11 }));
    assert_eq!(frame.pixel(2, 0), None);
    assert_eq!(frame.pixel(0, 2), None);
    assert_eq!(frame.into_bytes(), bytes);
}

#[test]
fn paint_pixel_writes_the_three_bytes_of_an_escaped_pixel() {
    let palette = Palette::new(vec![0x010203, 0x0a0b0c]).unwrap();
    let mut bytes = vec![9u8; 9];
    paint_pixel(&mut bytes, 1, &palette, EscapeResult { count: 3, escaped: true });
    assert_eq!(bytes, vec![9, 9, 9, 0x0a, 0x0b, 0x0c, 9, 9, 9]);
    paint_pixel(&mut bytes, 2, &palette, EscapeResult { count: 4, escaped: true });
    assert_eq!(bytes, vec![9, 9, 9, 0x0a, 0x0b, 0x0c, 1, 2, 3]);
}

#[test]
fn paint_pixel_leaves_a_bounded_pixel_untouched() {
    let palette = Palette::new(vec![0x010203]).unwrap();
    let mut bytes = vec![9u8; 6];
    paint_pixel(&mut bytes, 0, &palette, EscapeResult { count: 1000, escaped: false });
    assert_eq!(bytes, vec![9u8; 6]);
}

#[test]
fn render_row_paints_from_left_to_right() {
    let palette = Palette::new(vec![0x000001, 0x000002, 0x000003]).unwrap();
    let mut row = vec![0u8; 12];
    render_row(&mut row, 4, 1, &palette, diagonal);
    // row 1: counts 10, 11, 12, 13; columns 1 and 3 escape
    assert_eq!(row, vec![0, 0, 0, 0, 0, 3, 0, 0, 0, 0, 0, 2]);
}

#[test]
fn render_paints_every_pixel_of_the_image() {
    let palette = Palette::new(vec![0x111111, 0x222222, 0x333333]).unwrap();
    let frame = render(resolution(3, 2), &palette, diagonal).unwrap();
    assert_eq!(frame.resolution(), resolution(3, 2));
    assert_eq!(
        frame.into_bytes(),
        vec![
            0x11, 0x11, 0x11, 0, 0, 0, 0x33, 0x33, 0x33, // row 0: counts 0, 1, 2
            0, 0, 0, 0x33, 0x33, 0x33, 0, 0, 0, // row 1: counts 10, 11, 12
        ]
    );
}

#[test]
fn render_classifies_each_pixel_once_in_row_major_order() {
    let palette = Palette::new(vec![1]).unwrap();
    let seen = std::cell::RefCell::new(Vec::new());
    let frame = render(resolution(3, 2), &palette, |x: u32, y: u32| {
        seen.borrow_mut().push((x, y));
        EscapeResult { count: 0, escaped: false }
    })
    .unwrap();
    assert_eq!(seen.into_inner(), vec![(0, 0), (1, 0), (2, 0), (0, 1), (1, 1), (2, 1)]);
    assert_eq!(frame.into_bytes(), vec![0u8; 18]);
}

#[test]
fn rendering_twice_gives_the_same_bytes() {
    let palette = Palette::new(vec![0x102030, 0x405060, 0x708090, 0xa0b0c0]).unwrap();
    let first = render(resolution(7, 5), &palette, diagonal).unwrap().into_bytes();
    let second = render(resolution(7, 5), &palette, diagonal).unwrap().into_bytes();
    assert_eq!(first, second);
}

#[test]
fn rendering_row_by_row_gives_the_same_bytes_as_rendering_the_image() {
    let palette = Palette::new(vec![0x102030, 0x405060, 0x708090, 0xa0b0c0]).unwrap();
    let res = resolution(7, 5);
    let whole = render(res, &palette, diagonal).unwrap().into_bytes();
    let blank = Frame::blank(res).unwrap();
    let row_bytes = blank.row_bytes();
    let mut bytes = blank.into_bytes();
    for (y, row) in bytes.chunks_mut(row_bytes).enumerate().rev() {
        render_row(row, 7, y as u32, &palette, diagonal);
    }
    assert_eq!(bytes, whole);
    assert!(Frame::from_bytes(res, bytes).is_ok());
}
