//! One frame of the software renderer: the repaint strategy, the layout to draw
//! in, and the cursor over the finished scene.

use vstd::endian::{endianness, Endian};
use vstd::prelude::*;

use crate::cursor::{
    all_premultiplied, composite_cursor, cursor_changes_nothing_else, cursor_fits,
    cursor_tracks_the_pointer, frame_with_cursor, PhysicalPosition,
};
use crate::format::{
    fourcc_text, layout_of, pixel_layout, unsupported_format_message, Fourcc, PixelLayout,
};
use crate::pixel::{
    an_opaque_color_replaces_the_pixel, half_words_hold_their_fields_by_place,
    opaque_replaces_and_transparent_keeps_rgb565, word_and_bytes_agree, word_of_bytes,
    DumbBufferPixelBgra8888, DumbBufferPixelXrgb888, PremultipliedRgbaColor, Rgb565Pixel,
    TargetPixel,
};
use crate::rotation::{buffer_position, rotated_extent, RenderingRotation};

verus! {

/// The error of a cast between slices.
#[verifier::external_type_specification]
#[verifier::external_body]
pub struct ExPodCastError(bytemuck::PodCastError);

/// The word that four bytes in memory order make on this machine.
pub open spec fn word_in_memory(b0: u8, b1: u8, b2: u8, b3: u8) -> u32 {
    match endianness() {
        Endian::Little => word_of_bytes(b3, b2, b1, b0),
        Endian::Big => word_of_bytes(b0, b1, b2, b3),
    }
}

/// The words that the bytes of a frame buffer make on this machine.
pub open spec fn words_in_memory(bytes: Seq<u8>) -> Seq<u32> {
    Seq::new(
        bytes.len() / 4,
        |i: int| word_in_memory(bytes[4 * i], bytes[4 * i + 1], bytes[4 * i + 2], bytes[4 * i + 3]),
    )
}

/// `bytemuck::try_cast_slice_mut` from bytes to words: the same memory, read
/// and written a word at a time. It fails on a length that is no whole number
/// of words and on memory that is not aligned for words, and then nothing
/// happens.
#[verifier::external_body]
fn cast_words(bytes: &mut [u8]) -> (words: Result<&mut [u32], bytemuck::PodCastError>)
    ensures
        match words {
            Ok(words) => {
                &&& old(bytes)@.len() % 4 == 0
                &&& words@ == words_in_memory(old(bytes)@)
                &&& final(bytes)@.len() == old(bytes)@.len()
                &&& words_in_memory(final(bytes)@) == final(words)@
            },
            Err(_) => final(bytes)@ == old(bytes)@,
        },
{
    bytemuck::try_cast_slice_mut(bytes)
}

/// The half word that two bytes in memory order make on this machine.
pub open spec fn half_word_in_memory(b0: u8, b1: u8) -> u16 {
    match endianness() {
        Endian::Little => (b1 * 0x100 + b0) as u16,
        Endian::Big => (b0 * 0x100 + b1) as u16,
    }
}

/// The half words that the bytes of a frame buffer make on this machine.
pub open spec fn half_words_in_memory(bytes: Seq<u8>) -> Seq<u16> {
    Seq::new(bytes.len() / 2, |i: int| half_word_in_memory(bytes[2 * i], bytes[2 * i + 1]))
}

/// `bytemuck::try_cast_slice_mut` from bytes to half words, in the same way.
#[verifier::external_body]
fn cast_half_words(bytes: &mut [u8]) -> (words: Result<&mut [u16], bytemuck::PodCastError>)
    ensures
        match words {
            Ok(words) => {
                &&& old(bytes)@.len() % 2 == 0
                &&& words@ == half_words_in_memory(old(bytes)@)
                &&& final(bytes)@.len() == old(bytes)@.len()
                &&& half_words_in_memory(final(bytes)@) == final(words)@
            },
            Err(_) => final(bytes)@ == old(bytes)@,
        },
{
    bytemuck::try_cast_slice_mut(bytes)
}

/// How much of a frame buffer the renderer paints again.
#[derive(Clone, Copy, PartialEq, Eq, Structural, Debug)]
pub enum RepaintBufferType {
    /// Everything: the buffer holds no earlier frame.
    NewBuffer,
    /// What changed since the last frame, which the buffer holds.
    ReusedBuffer,
    /// What changed since the frame before the last one, which the buffer holds.
    SwappedBuffers,
}

/// The repaint strategy for a buffer that was shown `age` frames ago.
pub open spec fn repaint_of_age(age: u8) -> RepaintBufferType {
    if age == 1 {
        RepaintBufferType::ReusedBuffer
    } else if age == 2 {
        RepaintBufferType::SwappedBuffers
    } else {
        RepaintBufferType::NewBuffer
    }
}

/// How to draw one frame.
#[derive(Clone, Copy, PartialEq, Eq, Structural, Debug)]
pub struct FramePlan {
    pub repaint: RepaintBufferType,
    pub layout: PixelLayout,
}

/// Decides how a mapped back buffer is drawn: the age selects the repaint
/// strategy, the format the pixels. A format that the renderer does not support
/// is refused with a message.
pub fn plan_frame(age: u8, format: Fourcc) -> (plan: Result<FramePlan, String>)
    requires
        format.ascii(),
    ensures
        plan is Ok <==> layout_of(format) is Some,
        plan matches Ok(plan) ==> plan.repaint == repaint_of_age(age) && Some(plan.layout)
            == layout_of(format),
        plan matches Err(message) ==> message@ == "Unsupported frame buffer format "@ + fourcc_text(
            format.code,
        ) + " used with software renderer"@,
{
    let repaint = match age {
        1 => RepaintBufferType::ReusedBuffer,
        2 => RepaintBufferType::SwappedBuffers,
        _ => RepaintBufferType::NewBuffer,
    };
    match pixel_layout(format) {
        Some(layout) => Ok(FramePlan { repaint, layout }),
        None => Err(unsupported_format_message(format)),
    }
}

/// The rasterized cursor: `width` times `height` premultiplied pixels, row by
/// row.
pub struct CursorImage {
    pub pixels: Vec<PremultipliedRgbaColor>,
    pub width: usize,
    pub height: usize,
}

impl CursorImage {
    /// There is a pixel for every column and row, and each is premultiplied.
    pub open spec fn valid(self) -> bool {
        self.pixels@.len() >= self.width * self.height && all_premultiplied(self.pixels@)
    }

    /// Whether the image has all its pixels and they are premultiplied.
    pub fn is_valid(&self) -> (b: bool)
        ensures
            b == self.valid(),
    {
        let pixels: usize = self.pixels.len();
        let n: usize = match self.width.checked_mul(self.height) {
            Some(n) => n,
            None => {
                return false;
            },
        };
        if pixels < n {
            return false;
        }
        let mut i: usize = 0;
        while i < self.pixels.len()
            invariant
                0 <= i <= self.pixels@.len(),
                forall|j: int| 0 <= j < i ==> (#[trigger] self.pixels@[j]).premultiplied(),
            decreases self.pixels@.len() - i,
        {
            if !self.pixels[i].is_premultiplied() {
                return false;
            }
            i += 1;
        }
        true
    }
}

/// The frame buffer was no whole number of words, or not aligned for them.
#[derive(Clone, Copy, PartialEq, Eq, Structural, Debug)]
pub struct MisalignedFrame;

/// The bytes `after` are the frame `before` with the cursor over it.
pub open spec fn cursor_composited(
    layout: PixelLayout,
    before: Seq<u8>,
    after: Seq<u8>,
    rotation: RenderingRotation,
    width: int,
    height: int,
    at: PhysicalPosition,
    cursor: CursorImage,
) -> bool {
    let (pixels, cw, ch) = (cursor.pixels@, cursor.width as int, cursor.height as int);
    &&& after.len() == before.len()
    &&& match layout {
        PixelLayout::Xrgb8888 => words_in_memory(after) == frame_with_cursor::<
            DumbBufferPixelXrgb888,
        >(words_in_memory(before), rotation, width, height, at, pixels, cw, ch),
        PixelLayout::Bgra8888 => words_in_memory(after) == frame_with_cursor::<
            DumbBufferPixelBgra8888,
        >(words_in_memory(before), rotation, width, height, at, pixels, cw, ch),
        PixelLayout::Rgb565 => half_words_in_memory(after) == frame_with_cursor::<Rgb565Pixel>(
            half_words_in_memory(before),
            rotation,
            width,
            height,
            at,
            pixels,
            cw,
            ch,
        ),
    }
}

/// The bytes of one pixel.
pub open spec fn bytes_per_pixel(layout: PixelLayout) -> int {
    match layout {
        PixelLayout::Rgb565 => 2,
        _ => 4,
    }
}

/// Composites the cursor over the pixels of a frame. `pixels` is what reading
/// mapped memory as pixels gave; memory that is none has no cursor.
pub fn composite_cursor_on_pixels<P: TargetPixel>(
    pixels: Result<&mut [P::Word], bytemuck::PodCastError>,
    screen_width: usize,
    screen_height: usize,
    rotation: RenderingRotation,
    mouse_position: PhysicalPosition,
    cursor: &CursorImage,
) -> (done: Result<(), MisalignedFrame>)
    requires
        cursor.valid(),
        cursor_fits(
            rotation,
            screen_width as int,
            screen_height as int,
            mouse_position,
            cursor.width as int,
            cursor.height as int,
        ),
        pixels matches Ok(pixels) ==> pixels@.len() >= screen_width * screen_height,
    ensures
        match pixels {
            Ok(pixels) => {
                &&& done is Ok
                &&& final(pixels)@ == frame_with_cursor::<P>(
                    pixels@,
                    rotation,
                    screen_width as int,
                    screen_height as int,
                    mouse_position,
                    cursor.pixels@,
                    cursor.width as int,
                    cursor.height as int,
                )
            },
            Err(_) => done is Err,
        },
{
    match pixels {
        Ok(pixels) => {
            composite_cursor::<P>(
                pixels,
                screen_width,
                screen_height,
                rotation,
                mouse_position,
                cursor.pixels.as_slice(),
                cursor.width,
                cursor.height,
            );
            Ok(())
        },
        Err(_) => Err(MisalignedFrame),
    }
}

/// Composites the cursor over a frame that the renderer has drawn into mapped
/// memory. Memory that cannot be read as pixels of the layout is left as it is:
/// its length is no whole number of pixels, or it lies where none can be, which
/// is up to whoever mapped it.
pub fn composite_cursor_on_frame(
    frame: &mut [u8],
    layout: PixelLayout,
    screen_width: usize,
    screen_height: usize,
    rotation: RenderingRotation,
    mouse_position: PhysicalPosition,
    cursor: &CursorImage,
) -> (done: Result<(), MisalignedFrame>)
    requires
        cursor.valid(),
        cursor_fits(
            rotation,
            screen_width as int,
            screen_height as int,
            mouse_position,
            cursor.width as int,
            cursor.height as int,
        ),
        old(frame)@.len() >= bytes_per_pixel(layout) * (screen_width * screen_height),
    ensures
        done is Ok ==> old(frame)@.len() % bytes_per_pixel(layout) as nat == 0 && cursor_composited(
            layout,
            old(frame)@,
            final(frame)@,
            rotation,
            screen_width as int,
            screen_height as int,
            mouse_position,
            *cursor,
        ),
        done is Err ==> final(frame)@ == old(frame)@,
{
    match layout {
        PixelLayout::Xrgb8888 => composite_cursor_on_pixels::<DumbBufferPixelXrgb888>(
            cast_words(frame),
            screen_width,
            screen_height,
            rotation,
            mouse_position,
            cursor,
        ),
        PixelLayout::Bgra8888 => composite_cursor_on_pixels::<DumbBufferPixelBgra8888>(
            cast_words(frame),
            screen_width,
            screen_height,
            rotation,
            mouse_position,
            cursor,
        ),
        PixelLayout::Rgb565 => composite_cursor_on_pixels::<Rgb565Pixel>(
            cast_half_words(frame),
            screen_width,
            screen_height,
            rotation,
            mouse_position,
            cursor,
        ),
    }
}

/// Finishes a frame that the renderer has drawn: the cursor goes over it if there
/// is a pointer, and without one the frame stays as it is. `pointer` is where the
/// pointer is, with the cursor image.
pub fn finish_frame(
    frame: &mut [u8],
    layout: PixelLayout,
    screen_width: usize,
    screen_height: usize,
    rotation: RenderingRotation,
    pointer: Option<(PhysicalPosition, &CursorImage)>,
) -> (done: Result<(), MisalignedFrame>)
    requires
        pointer matches Some((at, cursor)) ==> cursor.valid() && cursor_fits(
            rotation,
            screen_width as int,
            screen_height as int,
            at,
            cursor.width as int,
            cursor.height as int,
        ) && old(frame)@.len() >= bytes_per_pixel(layout) * (screen_width * screen_height),
    ensures
        pointer is None ==> done is Ok && final(frame)@ == old(frame)@,
        pointer matches Some((at, cursor)) ==> (done is Ok ==> cursor_composited(
            layout,
            old(frame)@,
            final(frame)@,
            rotation,
            screen_width as int,
            screen_height as int,
            at,
            *cursor,
        )),
        done is Err ==> final(frame)@ == old(frame)@,
{
    match pointer {
        None => Ok(()),
        Some((at, cursor)) => composite_cursor_on_frame(
            frame,
            layout,
            screen_width,
            screen_height,
            rotation,
            at,
            cursor,
        ),
    }
}

/// The age of a buffer says what it holds: the last frame, the one before, or
/// nothing that can be used.
pub proof fn the_age_says_what_a_buffer_holds(age: u8)
    ensures
        repaint_of_age(age) == RepaintBufferType::ReusedBuffer <==> age == 1,
        repaint_of_age(age) == RepaintBufferType::SwappedBuffers <==> age == 2,
        repaint_of_age(age) == RepaintBufferType::NewBuffer <==> age == 0 || age > 2,
{
}

/// A pixel takes as many bytes as the word that holds it.
pub proof fn pixels_take_the_bytes_of_their_words(layout: PixelLayout)
    ensures
        bytes_per_pixel(layout) == 2 <==> layout == PixelLayout::Rgb565,
        bytes_per_pixel(layout) == 4 <==> layout == PixelLayout::Xrgb8888 || layout
            == PixelLayout::Bgra8888,
{
}

/// A cursor image is valid exactly if there is a pixel for every column of every
/// row and each is premultiplied.
pub proof fn a_valid_image_has_all_its_pixels(image: CursorImage)
    ensures
        image.valid() <==> image.pixels@.len() >= image.width * image.height && all_premultiplied(
            image.pixels@,
        ),
{
}

/// An opaque pixel of the cursor is what the screen shows where it lies, in every
/// layout, under every rotation and whatever was drawn there: the word there holds
/// just that color.
pub proof fn an_opaque_cursor_pixel_is_seen(
    layout: PixelLayout,
    before: Seq<u8>,
    after: Seq<u8>,
    rotation: RenderingRotation,
    width: int,
    height: int,
    at: PhysicalPosition,
    cursor: CursorImage,
    cx: int,
    cy: int,
)
    requires
        cursor_composited(layout, before, after, rotation, width, height, at, cursor),
        before.len() >= bytes_per_pixel(layout) * (width * height),
        0 <= cx < cursor.width,
        0 <= cy < cursor.height,
        0 <= at.x + cx < rotated_extent(rotation, width, height).0,
        0 <= at.y + cy < rotated_extent(rotation, width, height).1,
        cursor.pixels@[cy * cursor.width + cx].premultiplied(),
        cursor.pixels@[cy * cursor.width + cx].alpha == 255,
    ensures
        ({
            let (w, h) = rotated_extent(rotation, width, height);
            let (bx, by) = buffer_position(rotation, w, h, at.x + cx, at.y + cy);
            let i = by * width + bx;
            let color = cursor.pixels@[cy * cursor.width + cx];
            match layout {
                PixelLayout::Xrgb8888 => words_in_memory(after)[i] == 0xff00_0000 + color.red
                    * 0x1_0000 + color.green * 0x100 + color.blue,
                PixelLayout::Bgra8888 => words_in_memory(after)[i] == color.blue * 0x100_0000
                    + color.green * 0x1_0000 + color.red * 0x100 + 0xff,
                PixelLayout::Rgb565 => half_words_in_memory(after)[i] == (color.red / 8) * 2048 + (
                color.green / 4) * 32 + color.blue / 8,
            }
        }),
{
    let (w, h) = rotated_extent(rotation, width, height);
    let (bx, by) = buffer_position(rotation, w, h, at.x + cx, at.y + cy);
    let i = by * width + bx;
    let (pixels, cw, ch) = (cursor.pixels@, cursor.width as int, cursor.height as int);
    let color = pixels[cy * cw + cx];
    match layout {
        PixelLayout::Xrgb8888 => {
            let words = words_in_memory(before);
            cursor_tracks_the_pointer::<DumbBufferPixelXrgb888>(
                words,
                rotation,
                width,
                height,
                at,
                pixels,
                cw,
                ch,
                cx,
                cy,
            );
            an_opaque_color_replaces_the_pixel(
                DumbBufferPixelXrgb888(words[i]),
                DumbBufferPixelBgra8888(words[i]),
                color,
            );
        },
        PixelLayout::Bgra8888 => {
            let words = words_in_memory(before);
            cursor_tracks_the_pointer::<DumbBufferPixelBgra8888>(
                words,
                rotation,
                width,
                height,
                at,
                pixels,
                cw,
                ch,
                cx,
                cy,
            );
            an_opaque_color_replaces_the_pixel(
                DumbBufferPixelXrgb888(words[i]),
                DumbBufferPixelBgra8888(words[i]),
                color,
            );
        },
        PixelLayout::Rgb565 => {
            let words = half_words_in_memory(before);
            cursor_tracks_the_pointer::<Rgb565Pixel>(
                words,
                rotation,
                width,
                height,
                at,
                pixels,
                cw,
                ch,
                cx,
                cy,
            );
            opaque_replaces_and_transparent_keeps_rgb565(Rgb565Pixel(words[i]), color);
            half_words_hold_their_fields_by_place(
                Rgb565Pixel(words[i]),
                color.red as int / 8,
                color.green as int / 4,
                color.blue as int / 8,
            );
        },
    }
}

/// Where the cursor does not reach, the frame keeps its bytes, in every layout.
pub proof fn the_frame_beside_the_cursor_keeps_its_bytes(
    layout: PixelLayout,
    before: Seq<u8>,
    after: Seq<u8>,
    rotation: RenderingRotation,
    width: int,
    height: int,
    at: PhysicalPosition,
    cursor: CursorImage,
    i: int,
    k: int,
)
    requires
        cursor_composited(layout, before, after, rotation, width, height, at, cursor),
        0 < width,
        0 <= i,
        bytes_per_pixel(layout) * (i + 1) <= before.len(),
        0 <= k < bytes_per_pixel(layout),
        forall|cx: int, cy: int|
            #![trigger buffer_position(
                rotation,
                rotated_extent(rotation, width, height).0,
                rotated_extent(rotation, width, height).1,
                at.x + cx,
                at.y + cy,
            )]
            0 <= cx < cursor.width && 0 <= cy < cursor.height ==> {
                let (w, h) = rotated_extent(rotation, width, height);
                let (bx, by) = buffer_position(rotation, w, h, at.x + cx, at.y + cy);
                !(0 <= bx < width && 0 <= by < height && i == by * width + bx)
            },
    ensures
        after.len() == before.len(),
        after[bytes_per_pixel(layout) * i + k] == before[bytes_per_pixel(layout) * i + k],
{
    let (pixels, cw, ch) = (cursor.pixels@, cursor.width as int, cursor.height as int);
    match layout {
        PixelLayout::Xrgb8888 => {
            let words = words_in_memory(before);
            cursor_changes_nothing_else::<DumbBufferPixelXrgb888>(
                words,
                rotation,
                width,
                height,
                at,
                pixels,
                cw,
                ch,
                i,
            );
            lemma_words_have_their_bytes(before, after, i);
        },
        PixelLayout::Bgra8888 => {
            let words = words_in_memory(before);
            cursor_changes_nothing_else::<DumbBufferPixelBgra8888>(
                words,
                rotation,
                width,
                height,
                at,
                pixels,
                cw,
                ch,
                i,
            );
            lemma_words_have_their_bytes(before, after, i);
        },
        PixelLayout::Rgb565 => {
            let words = half_words_in_memory(before);
            cursor_changes_nothing_else::<Rgb565Pixel>(
                words,
                rotation,
                width,
                height,
                at,
                pixels,
                cw,
                ch,
                i,
            );
            lemma_half_words_have_their_bytes(before, after, i);
        },
    }
}

/// The same word is made of the same bytes.
proof fn lemma_words_have_their_bytes(a: Seq<u8>, b: Seq<u8>, i: int)
    requires
        a.len() == b.len(),
        0 <= i,
        4 * (i + 1) <= a.len(),
        words_in_memory(a)[i] == words_in_memory(b)[i],
    ensures
        forall|k: int| 0 <= k < 4 ==> #[trigger] a[4 * i + k] == b[4 * i + k],
{
    let (a0, a1, a2, a3) = (a[4 * i], a[4 * i + 1], a[4 * i + 2], a[4 * i + 3]);
    let (b0, b1, b2, b3) = (b[4 * i], b[4 * i + 1], b[4 * i + 2], b[4 * i + 3]);
    assert(words_in_memory(a)[i] == word_in_memory(a0, a1, a2, a3));
    assert(words_in_memory(b)[i] == word_in_memory(b0, b1, b2, b3));
    word_and_bytes_agree(0, a3, a2, a1, a0);
    word_and_bytes_agree(0, b3, b2, b1, b0);
    word_and_bytes_agree(0, a0, a1, a2, a3);
    word_and_bytes_agree(0, b0, b1, b2, b3);
    assert forall|k: int| 0 <= k < 4 implies #[trigger] a[4 * i + k] == b[4 * i + k] by {
        assert(k == 0 || k == 1 || k == 2 || k == 3);
    }
}

/// The same half word is made of the same bytes.
proof fn lemma_half_words_have_their_bytes(a: Seq<u8>, b: Seq<u8>, i: int)
    requires
        a.len() == b.len(),
        0 <= i,
        2 * (i + 1) <= a.len(),
        half_words_in_memory(a)[i] == half_words_in_memory(b)[i],
    ensures
        forall|k: int| 0 <= k < 2 ==> #[trigger] a[2 * i + k] == b[2 * i + k],
{
    let (a0, a1) = (a[2 * i], a[2 * i + 1]);
    let (b0, b1) = (b[2 * i], b[2 * i + 1]);
    assert(half_words_in_memory(a)[i] == half_word_in_memory(a0, a1));
    assert(half_words_in_memory(b)[i] == half_word_in_memory(b0, b1));
    assert forall|k: int| 0 <= k < 2 implies #[trigger] a[2 * i + k] == b[2 * i + k] by {
        assert(k == 0 || k == 1);
    }
}

} // verus!
