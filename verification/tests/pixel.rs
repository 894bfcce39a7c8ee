use linuxsgc::pixel::{
    DumbBufferPixelBgra8888, DumbBufferPixelXrgb888, PremultipliedRgbaColor, Rgb565Pixel,
    TargetPixel,
};

fn color(red: u8, green: u8, blue: u8, alpha: u8) -> PremultipliedRgbaColor {
    PremultipliedRgbaColor { red, green, blue, alpha }
}

#[test]
fn xrgb_words_hold_alpha_red_green_blue() {
    let pixel = DumbBufferPixelXrgb888(0x11223344);
    assert_eq!(pixel.to_color(), color(0x22, 0x33, 0x44, 0x11));
    assert_eq!(DumbBufferPixelXrgb888::from_color(color(0x22, 0x33, 0x44, 0x11)), pixel);
    assert_eq!(DumbBufferPixelXrgb888::from_rgb(1, 2, 3), DumbBufferPixelXrgb888(0xff010203));
    assert_eq!(DumbBufferPixelXrgb888::background(), DumbBufferPixelXrgb888(0));
}

#[test]
fn bgra_words_hold_blue_green_red_alpha() {
    let pixel = DumbBufferPixelBgra8888(0x11223344);
    assert_eq!(pixel.to_color(), color(0x33, 0x22, 0x11, 0x44));
    assert_eq!(DumbBufferPixelBgra8888::from_color(color(0x33, 0x22, 0x11, 0x44)), pixel);
    assert_eq!(DumbBufferPixelBgra8888::from_rgb(1, 2, 3), DumbBufferPixelBgra8888(0x030201ff));
    assert_eq!(DumbBufferPixelBgra8888::background(), DumbBufferPixelBgra8888(0));
}

#[test]
fn half_transparent_red_over_white() {
    let mut pixel = DumbBufferPixelXrgb888(0xffffffff);
    pixel.blend(color(64, 0, 0, 128));
    assert_eq!(pixel.to_color(), color(191, 127, 127, 255));
    let mut pixel = DumbBufferPixelBgra8888(0xffffffff);
    pixel.blend(color(64, 0, 0, 128));
    assert_eq!(pixel.to_color(), color(191, 127, 127, 255));
}

#[test]
fn alphas_combine() {
    let mut pixel = DumbBufferPixelXrgb888::from_color(color(10, 20, 30, 100));
    pixel.blend(color(1, 2, 3, 50));
    assert_eq!(pixel.to_color(), color(9, 18, 27, 131));
}

#[test]
fn opaque_replaces_and_transparent_keeps_words() {
    let below = DumbBufferPixelXrgb888(0x80123456);
    let mut pixel = below;
    pixel.blend(color(0, 0, 0, 0));
    assert_eq!(pixel, below);
    pixel.blend(color(9, 8, 7, 255));
    assert_eq!(pixel, DumbBufferPixelXrgb888(0xff090807));
}

#[test]
fn half_transparent_black_over_white_in_half_words() {
    let mut pixel = Rgb565Pixel(0xffff);
    pixel.blend(color(0, 0, 0, 128));
    assert_eq!(pixel, Rgb565Pixel(0x7bef));
}

#[test]
fn opaque_replaces_and_transparent_keeps_half_words() {
    let mut pixel = Rgb565Pixel(0x1234);
    pixel.blend(color(0, 0, 0, 0));
    assert_eq!(pixel, Rgb565Pixel(0x1234));
    pixel.blend(color(255, 4, 8, 255));
    assert_eq!(pixel, Rgb565Pixel((31 << 11) | (1 << 5) | 1));
}

#[test]
fn half_words_blend_as_documented() {
    for below in [0u16, 0x1234, 0x7bef, 0xabcd, 0xffff] {
        for alpha in [0u8, 1, 3, 4, 100, 128, 200, 251, 252, 255] {
            let above = color(alpha, alpha / 2, alpha / 3, alpha);
            let mut pixel = Rgb565Pixel(below);
            pixel.blend(above);
            let through = (259 - alpha as u32) / 8;
            let field = |field: u32, channel: u32| (field * through + channel * 32) / 32;
            let below = below as u32;
            let red = field(below / 2048, above.red as u32 / 8);
            let green = field(below / 32 % 64, above.green as u32 / 4);
            let blue = field(below % 32, above.blue as u32 / 8);
            assert_eq!(pixel.0 as u32, red * 2048 + green * 32 + blue);
        }
    }
}

#[test]
fn blending_keeps_a_premultiplied_color_premultiplied() {
    for below in [color(0, 0, 0, 0), color(40, 200, 7, 200), color(255, 255, 255, 255)] {
        for above in [color(0, 0, 0, 1), color(90, 90, 90, 90), color(254, 3, 0, 254)] {
            let mut pixel = DumbBufferPixelXrgb888::from_color(below);
            pixel.blend(above);
            assert!(pixel.to_color().is_premultiplied());
        }
    }
    assert!(!color(2, 0, 0, 1).is_premultiplied());
}
