use kernel::framebuffer::{draw_pixel, set_pixel_in, Color, FrameBufferInfo, PixelFormat, Position};

fn info(format: PixelFormat, bytes_per_pixel: usize) -> FrameBufferInfo {
    FrameBufferInfo { width: 4, height: 3, stride: 5, bytes_per_pixel, pixel_format: format }
}

const ORANGE: Color = Color { red: 250, green: 100, blue: 10 };

#[test]
fn rgb_pixel_goes_to_its_offset() {
    let info = info(PixelFormat::Rgb, 4);
    let mut buffer = vec![0u8; 5 * 3 * 4];
    set_pixel_in(&mut buffer, &info, Position { x: 2, y: 1 }, ORANGE);
    let offset = (1 * 5 + 2) * 4;
    assert_eq!(offset, 28);
    let mut expected = vec![0u8; 60];
    expected[28] = 250;
    expected[29] = 100;
    expected[30] = 10;
    assert_eq!(buffer, expected);
}

#[test]
fn bgr_pixel_swaps_red_and_blue() {
    let info = info(PixelFormat::Bgr, 3);
    let mut buffer = vec![7u8; 5 * 3 * 3];
    set_pixel_in(&mut buffer, &info, Position { x: 0, y: 0 }, ORANGE);
    assert_eq!(&buffer[..4], &[10, 100, 250, 7]);
    assert!(buffer[3..].iter().all(|byte| *byte == 7));
}

#[test]
fn grey_pixel_is_a_third_of_each_channel() {
    let info = info(PixelFormat::U8, 1);
    let mut buffer = vec![0u8; 5 * 3];
    set_pixel_in(&mut buffer, &info, Position { x: 3, y: 2 }, ORANGE);
    // 250 / 3 + 100 / 3 + 10 / 3 = 83 + 33 + 3
    assert_eq!(buffer[13], 119);
    set_pixel_in(&mut buffer, &info, Position { x: 0, y: 0 }, Color { red: 255, green: 255, blue: 255 });
    assert_eq!(buffer[0], 255);
    assert_eq!(buffer.iter().filter(|byte| **byte != 0).count(), 2);
}

#[test]
fn last_pixel_fits_the_buffer_exactly() {
    let info = FrameBufferInfo {
        width: 5,
        height: 3,
        stride: 5,
        bytes_per_pixel: 3,
        pixel_format: PixelFormat::Rgb,
    };
    let mut buffer = vec![0u8; 45];
    set_pixel_in(&mut buffer, &info, Position { x: 4, y: 2 }, ORANGE);
    assert_eq!(&buffer[42..], &[250, 100, 10]);
}

#[test]
fn points_outside_the_picture_are_ignored() {
    let info = info(PixelFormat::Rgb, 4);
    let mut buffer = vec![0u8; 60];
    for (x, y) in [(-1, 0), (0, -1), (4, 0), (0, 3), (i32::MAX, i32::MAX), (i32::MIN, 1)] {
        assert!(!info.contains(x, y));
        draw_pixel(&mut buffer, &info, x, y, ORANGE);
    }
    assert!(buffer.iter().all(|byte| *byte == 0));
    assert!(info.contains(3, 2));
    draw_pixel(&mut buffer, &info, 3, 2, ORANGE);
    assert_eq!(&buffer[52..55], &[250, 100, 10]);
}
