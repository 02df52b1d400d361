use uefi_kernel::framebuffer::{Color, FrameBuffer, ModeInfo, PixelFormat};

fn buffer(format: PixelFormat) -> FrameBuffer {
    FrameBuffer::new(ModeInfo { width: 4, height: 3, stride: 5, format })
}

#[test]
fn framebuffer_has_four_bytes_for_each_pixel_of_a_line() {
    assert_eq!(buffer(PixelFormat::Rgb).len(), 60);
    let wide = FrameBuffer::new(ModeInfo { width: 1920, height: 1080, stride: 2048, format: PixelFormat::Bgr });
    assert_eq!(wide.len(), 1080 * 2048 * 4);
    assert_eq!(wide.mode_info.width, 1920);
}

#[test]
fn rgb_pixel_is_red_green_blue() {
    let fb = buffer(PixelFormat::Rgb);
    let mut bytes = vec![0xeeu8; 60];
    fb.set_pixel(&mut bytes, 2, 1, Color { r: 1, g: 2, b: 3 });
    let at = (1 * 5 + 2) * 4;
    assert_eq!(&bytes[at..at + 4], &[1, 2, 3, 0]);
    assert!(bytes[..at].iter().all(|b| *b == 0xee));
    assert!(bytes[at + 4..].iter().all(|b| *b == 0xee));
}

#[test]
fn bgr_pixel_is_blue_green_red() {
    let fb = buffer(PixelFormat::Bgr);
    let mut bytes = vec![0u8; 60];
    fb.set_pixel(&mut bytes, 0, 0, Color { r: 10, g: 20, b: 30 });
    fb.set_pixel(&mut bytes, 4, 2, Color { r: 40, g: 50, b: 60 });
    assert_eq!(&bytes[0..4], &[30, 20, 10, 0]);
    assert_eq!(&bytes[56..60], &[60, 50, 40, 0]);
    assert!(bytes[4..56].iter().all(|b| *b == 0));
}

#[test]
fn picture_holds_the_pixels_within_width_and_height() {
    let fb = buffer(PixelFormat::Rgb);
    assert!(fb.contains(0, 0));
    assert!(fb.contains(3, 2));
    assert!(!fb.contains(4, 2));
    assert!(!fb.contains(3, 3));
    assert!(!fb.contains(-1, 0));
    assert!(!fb.contains(0, -1));
    assert!(!fb.contains(i32::MIN, i32::MAX));
}
