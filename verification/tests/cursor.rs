use linuxsgc::cursor::{can_composite, composite_cursor, PhysicalPosition};
use linuxsgc::format::{Fourcc, PixelLayout, SoftwareFormat};
use linuxsgc::frame::{
    composite_cursor_on_frame, composite_cursor_on_pixels, finish_frame, plan_frame, CursorImage,
    MisalignedFrame, RepaintBufferType,
};
use linuxsgc::pixel::{DumbBufferPixelXrgb888, PremultipliedRgbaColor, Rgb565Pixel};
use linuxsgc::rotation::RenderingRotation;

fn opaque(shade: u8) -> PremultipliedRgbaColor {
    PremultipliedRgbaColor { red: 0, green: 0, blue: shade, alpha: 255 }
}

/// A cursor of two by one pixels.
fn cursor() -> CursorImage {
    CursorImage { pixels: vec![opaque(1), opaque(2)], width: 2, height: 1 }
}

fn drawn(rotation: RenderingRotation, x: i32, y: i32) -> Vec<u32> {
    let mut frame = vec![0u32; 6];
    let image = cursor();
    let at = PhysicalPosition { x, y };
    assert!(can_composite(rotation, 3, 2, at, 2, 1));
    composite_cursor::<DumbBufferPixelXrgb888>(
        &mut frame,
        3,
        2,
        rotation,
        at,
        &image.pixels,
        image.width,
        image.height,
    );
    frame
}

const A: u32 = 0xff000001;
const B: u32 = 0xff000002;

#[test]
fn the_cursor_is_drawn_at_the_pointer() {
    assert_eq!(drawn(RenderingRotation::NoRotation, 0, 0), vec![A, B, 0, 0, 0, 0]);
    assert_eq!(drawn(RenderingRotation::NoRotation, 1, 1), vec![0, 0, 0, 0, A, B]);
}

#[test]
fn the_cursor_tracks_the_pointer_under_rotation() {
    // The window is two pixels wide and three high on quarter turns.
    assert_eq!(drawn(RenderingRotation::Rotate90, 0, 0), vec![0, 0, A, 0, 0, B]);
    assert_eq!(drawn(RenderingRotation::Rotate90, 0, 2), vec![A, 0, 0, B, 0, 0]);
    assert_eq!(drawn(RenderingRotation::Rotate180, 0, 0), vec![0, 0, 0, 0, B, A]);
    assert_eq!(drawn(RenderingRotation::Rotate270, 0, 0), vec![B, 0, 0, A, 0, 0]);
    assert_eq!(drawn(RenderingRotation::Rotate270, 0, 2), vec![0, 0, B, 0, 0, A]);
}

#[test]
fn the_cursor_is_cut_off_at_the_edge() {
    assert_eq!(drawn(RenderingRotation::NoRotation, 2, 0), vec![0, 0, A, 0, 0, 0]);
    assert_eq!(drawn(RenderingRotation::NoRotation, -1, 0), vec![B, 0, 0, 0, 0, 0]);
    assert_eq!(drawn(RenderingRotation::NoRotation, 0, 2), vec![0; 6]);
    assert_eq!(drawn(RenderingRotation::Rotate90, 1, 0), vec![0, 0, 0, 0, 0, A]);
}

#[test]
fn the_cursor_changes_no_other_pixel() {
    let mut frame: Vec<u16> = vec![0x1111; 8];
    composite_cursor::<Rgb565Pixel>(
        &mut frame,
        2,
        2,
        RenderingRotation::NoRotation,
        PhysicalPosition { x: 0, y: 1 },
        &[opaque(255)],
        1,
        1,
    );
    assert_eq!(frame, vec![0x1111, 0x1111, 31, 0x1111, 0x1111, 0x1111, 0x1111, 0x1111]);
}

#[test]
fn positions_beyond_the_range_do_not_fit() {
    let fits = |rotation, x, y| can_composite(rotation, 3, 2, PhysicalPosition { x, y }, 2, 1);
    assert!(fits(RenderingRotation::NoRotation, i32::MIN, i32::MIN));
    assert!(!fits(RenderingRotation::NoRotation, i32::MAX, 0));
    assert!(fits(RenderingRotation::NoRotation, i32::MAX - 1, 0));
    assert!(!fits(RenderingRotation::Rotate180, i32::MIN, 0));
    assert!(!fits(RenderingRotation::Rotate90, 0, i32::MIN));
    assert!(fits(RenderingRotation::Rotate90, i32::MIN, 0));
    assert!(!fits(RenderingRotation::Rotate270, i32::MIN, 0));
    assert!(!can_composite(
        RenderingRotation::NoRotation,
        1 << 16,
        1 << 16,
        PhysicalPosition { x: 0, y: 0 },
        1,
        1
    ));
}

#[test]
fn the_age_of_a_buffer_selects_the_repaint() {
    let format = SoftwareFormat::Bgra8888.fourcc();
    let plan = |age| plan_frame(age, format).unwrap();
    assert_eq!(plan(0).repaint, RepaintBufferType::NewBuffer);
    assert_eq!(plan(1).repaint, RepaintBufferType::ReusedBuffer);
    assert_eq!(plan(2).repaint, RepaintBufferType::SwappedBuffers);
    assert_eq!(plan(3).repaint, RepaintBufferType::NewBuffer);
    assert_eq!(plan(1).layout, PixelLayout::Bgra8888);
}

#[test]
fn a_frame_of_another_format_is_refused() {
    assert_eq!(
        plan_frame(1, Fourcc { code: drm::buffer::DrmFourcc::Nv12 as u32 }),
        Err("Unsupported frame buffer format NV12 used with software renderer".to_string())
    );
}

#[test]
fn the_cursor_goes_over_mapped_memory() {
    let image = cursor();
    let mut words = vec![0u32; 6];
    let done = composite_cursor_on_frame(
        bytemuck::cast_slice_mut(&mut words),
        PixelLayout::Xrgb8888,
        3,
        2,
        RenderingRotation::NoRotation,
        PhysicalPosition { x: 1, y: 0 },
        &image,
    );
    assert_eq!(done, Ok(()));
    assert_eq!(words, vec![0, A, B, 0, 0, 0]);
    let mut words = vec![0u32; 6];
    let done = composite_cursor_on_frame(
        bytemuck::cast_slice_mut(&mut words),
        PixelLayout::Bgra8888,
        3,
        2,
        RenderingRotation::NoRotation,
        PhysicalPosition { x: 0, y: 0 },
        &image,
    );
    assert_eq!(done, Ok(()));
    assert_eq!(words, vec![0x010000ff, 0x020000ff, 0, 0, 0, 0]);
    let white = CursorImage { pixels: vec![opaque(255)], width: 1, height: 1 };
    let mut half_words = vec![0u16; 6];
    let done = composite_cursor_on_frame(
        bytemuck::cast_slice_mut(&mut half_words),
        PixelLayout::Rgb565,
        3,
        2,
        RenderingRotation::Rotate180,
        PhysicalPosition { x: 0, y: 0 },
        &white,
    );
    assert_eq!(done, Ok(()));
    assert_eq!(half_words, vec![0, 0, 0, 0, 0, 31]);
}

#[test]
fn memory_that_holds_no_whole_words_is_left_alone() {
    let mut bytes = vec![7u8; 27];
    let done = composite_cursor_on_frame(
        &mut bytes,
        PixelLayout::Xrgb8888,
        3,
        2,
        RenderingRotation::NoRotation,
        PhysicalPosition { x: 0, y: 0 },
        &cursor(),
    );
    assert_eq!(done, Err(MisalignedFrame));
    assert_eq!(bytes, vec![7u8; 27]);
}

#[test]
fn the_cursor_goes_over_memory_that_is_pixels() {
    let image = cursor();
    let at = PhysicalPosition { x: 1, y: 1 };
    let rotation = RenderingRotation::NoRotation;
    let mut words = vec![3u32; 6];
    let pixels = bytemuck::try_cast_slice_mut(words.as_mut_slice());
    assert_eq!(
        composite_cursor_on_pixels::<DumbBufferPixelXrgb888>(pixels, 3, 2, rotation, at, &image),
        Ok(())
    );
    assert_eq!(words, vec![3, 3, 3, 3, A, B]);
    let none = Err(bytemuck::PodCastError::TargetAlignmentGreaterAndInputNotAligned);
    assert_eq!(
        composite_cursor_on_pixels::<DumbBufferPixelXrgb888>(none, 3, 2, rotation, at, &image),
        Err(MisalignedFrame)
    );
}

#[test]
fn memory_out_of_line_is_left_alone() {
    let mut words = vec![0u32; 8];
    let bytes: &mut [u8] = bytemuck::cast_slice_mut(&mut words);
    let done = composite_cursor_on_frame(
        &mut bytes[1..25],
        PixelLayout::Xrgb8888,
        3,
        2,
        RenderingRotation::NoRotation,
        PhysicalPosition { x: 0, y: 0 },
        &cursor(),
    );
    assert_eq!(done, Err(MisalignedFrame));
    assert_eq!(words, vec![0u32; 8]);
}

#[test]
fn without_a_pointer_no_cursor_is_drawn() {
    let mut words = vec![5u32; 6];
    let rotation = RenderingRotation::NoRotation;
    let layout = PixelLayout::Xrgb8888;
    let bytes = bytemuck::cast_slice_mut(&mut words);
    assert_eq!(finish_frame(bytes, layout, 3, 2, rotation, None), Ok(()));
    assert_eq!(words, vec![5u32; 6]);
    let image = cursor();
    let pointer = Some((PhysicalPosition { x: 0, y: 0 }, &image));
    let bytes = bytemuck::cast_slice_mut(&mut words);
    assert_eq!(finish_frame(bytes, layout, 3, 2, rotation, pointer), Ok(()));
    assert_eq!(words, vec![A, B, 5, 5, 5, 5]);
}

#[test]
fn cursor_images_are_checked() {
    assert!(cursor().is_valid());
    let short = CursorImage { pixels: vec![opaque(1)], width: 2, height: 1 };
    assert!(!short.is_valid());
    let huge = CursorImage { pixels: vec![], width: usize::MAX, height: 2 };
    assert!(!huge.is_valid());
    let bright = PremultipliedRgbaColor { red: 9, green: 0, blue: 0, alpha: 8 };
    assert!(!CursorImage { pixels: vec![bright], width: 1, height: 1 }.is_valid());
}
