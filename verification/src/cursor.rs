//! Compositing the mouse cursor over a rendered frame.

use vstd::prelude::*;

use crate::pixel::{PremultipliedRgbaColor, TargetPixel};
use crate::rotation::{
    buffer_position, mapping_fits, rotated_extent, screen_pixels_show_the_window,
    window_pixels_are_on_screen, window_position, window_to_buffer, RenderingRotation,
};

verus! {

/// A position in the window, in physical pixels.
#[derive(Clone, Copy, PartialEq, Eq, Structural, Debug)]
pub struct PhysicalPosition {
    pub x: i32,
    pub y: i32,
}

/// The column and row of the cursor image that the pixel `i` of a screen of
/// `width` pixels per line shows, with the image's top left corner at `at`. It
/// lies outside the image where the cursor does not reach the pixel.
pub open spec fn cursor_cell(
    rotation: RenderingRotation,
    width: int,
    height: int,
    at: PhysicalPosition,
    i: int,
) -> (int, int) {
    let (w, h) = rotated_extent(rotation, width, height);
    let (x, y) = window_position(rotation, w, h, i % width, i / width);
    (x - at.x, y - at.y)
}

/// The cursor image of `cw` x `ch` pixels at `at` reaches pixel `i` of the
/// screen.
pub open spec fn cursor_covers(
    rotation: RenderingRotation,
    width: int,
    height: int,
    at: PhysicalPosition,
    cw: int,
    ch: int,
    i: int,
) -> bool {
    let (cx, cy) = cursor_cell(rotation, width, height, at, i);
    0 <= i < width * height && 0 <= cx < cw && 0 <= cy < ch
}

/// Pixel `i` of `frame` under the cursor: blended with the cursor pixel that
/// belongs there, or left alone where the cursor does not reach.
pub open spec fn pixel_under_cursor<P: TargetPixel>(
    frame: Seq<P::Word>,
    rotation: RenderingRotation,
    width: int,
    height: int,
    at: PhysicalPosition,
    cursor: Seq<PremultipliedRgbaColor>,
    cw: int,
    ch: int,
    i: int,
) -> P::Word {
    let (cx, cy) = cursor_cell(rotation, width, height, at, i);
    if cursor_covers(rotation, width, height, at, cw, ch, i) {
        P::of_word(frame[i]).blended(cursor[cy * cw + cx]).word()
    } else {
        frame[i]
    }
}

/// The whole frame with the cursor over it.
pub open spec fn frame_with_cursor<P: TargetPixel>(
    frame: Seq<P::Word>,
    rotation: RenderingRotation,
    width: int,
    height: int,
    at: PhysicalPosition,
    cursor: Seq<PremultipliedRgbaColor>,
    cw: int,
    ch: int,
) -> Seq<P::Word> {
    Seq::new(
        frame.len(),
        |i: int| pixel_under_cursor::<P>(frame, rotation, width, height, at, cursor, cw, ch, i),
    )
}

/// The sizes and the position stay inside `i32` when a cursor of `cw` x `ch`
/// pixels at `at` is mapped to the screen.
pub open spec fn cursor_fits(
    rotation: RenderingRotation,
    width: int,
    height: int,
    at: PhysicalPosition,
    cw: int,
    ch: int,
) -> bool {
    let (w, h) = rotated_extent(rotation, width, height);
    &&& width <= i32::MAX && height <= i32::MAX && width * height <= i32::MAX
    &&& cw <= i32::MAX && ch <= i32::MAX && cw * ch <= i32::MAX
    &&& at.x + cw <= i32::MAX + 1 && at.y + ch <= i32::MAX + 1
    &&& mapping_fits(rotation, w, h, at.x as int, at.y as int)
}

/// Whether the sizes and the position stay inside `i32`.
pub fn can_composite(
    rotation: RenderingRotation,
    screen_width: usize,
    screen_height: usize,
    at: PhysicalPosition,
    cursor_width: usize,
    cursor_height: usize,
) -> (fits: bool)
    ensures
        fits == cursor_fits(
            rotation,
            screen_width as int,
            screen_height as int,
            at,
            cursor_width as int,
            cursor_height as int,
        ),
{
    let limit: usize = i32::MAX as usize;
    if screen_width > limit || screen_height > limit || cursor_width > limit || cursor_height
        > limit {
        return false;
    }
    let (width, height): (i64, i64) = (screen_width as i64, screen_height as i64);
    let (columns, rows): (i64, i64) = (cursor_width as i64, cursor_height as i64);
    let (x, y): (i64, i64) = (at.x as i64, at.y as i64);
    let (max, min): (i64, i64) = (i32::MAX as i64, i32::MIN as i64);
    assert(0 <= width * height <= 0x7fff_ffff * 0x7fff_ffff && 0 <= columns * rows <= 0x7fff_ffff
        * 0x7fff_ffff) by (nonlinear_arith)
        requires
            0 <= width <= 0x7fff_ffff,
            0 <= height <= 0x7fff_ffff,
            0 <= columns <= 0x7fff_ffff,
            0 <= rows <= 0x7fff_ffff,
    ;
    if width * height > max || columns * rows > max || x + columns > max + 1 || y + rows > max + 1 {
        return false;
    }
    match rotation {
        RenderingRotation::NoRotation => true,
        RenderingRotation::Rotate90 => {
            // The window is as high as the screen is wide.
            min <= width - 1 - y && width - 1 - y <= max
        },
        RenderingRotation::Rotate180 => {
            min <= width - 1 - x && width - 1 - x <= max && min <= height - 1 - y && height - 1 - y
                <= max
        },
        RenderingRotation::Rotate270 => {
            // The window is as wide as the screen is high.
            min <= height - 1 - x && height - 1 - x <= max
        },
    }
}

/// Every pixel of a cursor image is premultiplied.
pub open spec fn all_premultiplied(cursor: Seq<PremultipliedRgbaColor>) -> bool {
    forall|i: int| 0 <= i < cursor.len() ==> (#[trigger] cursor[i]).premultiplied()
}

/// The part of the cursor that was drawn once rows before `row`, and columns
/// before `column` of that row, are done.
spec fn drawn<P: TargetPixel>(
    frame: Seq<P::Word>,
    rotation: RenderingRotation,
    width: int,
    height: int,
    at: PhysicalPosition,
    cursor: Seq<PremultipliedRgbaColor>,
    cw: int,
    ch: int,
    row: int,
    column: int,
    i: int,
) -> P::Word {
    let (cx, cy) = cursor_cell(rotation, width, height, at, i);
    if cy < row || (cy == row && cx < column) {
        pixel_under_cursor::<P>(frame, rotation, width, height, at, cursor, cw, ch, i)
    } else {
        frame[i]
    }
}

/// Exactly the buffer pixel that the mapping gives shows the cursor cell
/// `(cx, cy)`, if the mapping gives one on the screen at all.
proof fn lemma_cell_and_pixel(
    rotation: RenderingRotation,
    width: int,
    height: int,
    at: PhysicalPosition,
    cx: int,
    cy: int,
    i: int,
)
    requires
        0 < width,
    ensures
        ({
            let (w, h) = rotated_extent(rotation, width, height);
            let (bx, by) = buffer_position(rotation, w, h, at.x + cx, at.y + cy);
            let on_screen = 0 <= bx < width && 0 <= by < height;
            &&& on_screen ==> 0 <= by * width + bx < width * height
            &&& 0 <= i < width * height ==> (cursor_cell(rotation, width, height, at, i) == (cx, cy)
                <==> on_screen && i == by * width + bx)
        }),
{
    let (w, h) = rotated_extent(rotation, width, height);
    let (bx, by) = buffer_position(rotation, w, h, at.x + cx, at.y + cy);
    window_pixels_are_on_screen(rotation, width, height, at.x + cx, at.y + cy);
    if 0 <= bx < width && 0 <= by < height {
        let t = by * width + bx;
        assert(0 <= t < width * height) by (nonlinear_arith)
            requires
                t == by * width + bx,
                0 <= bx < width,
                0 <= by < height,
        ;
        assert(t % width == bx && t / width == by) by {
            vstd::arithmetic::div_mod::lemma_fundamental_div_mod_converse(t, width, by, bx);
        }
    }
    if 0 <= i < width * height {
        vstd::arithmetic::div_mod::lemma_fundamental_div_mod(i, width);
        vstd::arithmetic::div_mod::lemma_mod_bound(i, width);
        assert(0 <= i / width < height) by (nonlinear_arith)
            requires
                0 <= i < width * height,
                0 < width,
        ;
        assert((i / width) * width + i % width == i) by (nonlinear_arith)
            requires
                i == width * (i / width) + i % width,
        ;
        screen_pixels_show_the_window(rotation, width, height, i % width, i / width);
    }
}

/// Blends the cursor image over the frame with its top left corner at the
/// pointer. The buffer holds the words of the frame's pixels in the screen's
/// orientation, so window coordinates go through the mapping that the software
/// renderer applies to the scene, and the cursor tracks the pointer under any
/// rotation. What lies outside the window is not drawn.
pub fn composite_cursor<P: TargetPixel>(
    buffer: &mut [P::Word],
    screen_width: usize,
    screen_height: usize,
    rotation: RenderingRotation,
    mouse_position: PhysicalPosition,
    cursor_pixels: &[PremultipliedRgbaColor],
    cursor_width: usize,
    cursor_height: usize,
)
    requires
        cursor_fits(
            rotation,
            screen_width as int,
            screen_height as int,
            mouse_position,
            cursor_width as int,
            cursor_height as int,
        ),
        old(buffer)@.len() >= screen_width * screen_height,
        cursor_pixels@.len() >= cursor_width * cursor_height,
        all_premultiplied(cursor_pixels@),
    ensures
        final(buffer)@ == frame_with_cursor::<P>(
            old(buffer)@,
            rotation,
            screen_width as int,
            screen_height as int,
            mouse_position,
            cursor_pixels@,
            cursor_width as int,
            cursor_height as int,
        ),
{
    let ghost frame = buffer@;
    let ghost width = screen_width as int;
    let ghost height = screen_height as int;
    let ghost cw = cursor_width as int;
    let ghost ch = cursor_height as int;
    let (screen_width, screen_height): (i32, i32) = (screen_width as i32, screen_height as i32);
    let (columns, rows): (i32, i32) = (cursor_width as i32, cursor_height as i32);
    let mut cy: i32 = 0;
    while cy < rows
        invariant
            0 <= cy <= rows,
            0 <= width && 0 <= height && 0 <= cw && 0 <= ch,
            screen_width == width,
            screen_height == height,
            columns == cw,
            rows == ch,
            cursor_fits(rotation, width, height, mouse_position, cw, ch),
            buffer@.len() == frame.len(),
            frame.len() >= width * height,
            cursor_pixels@.len() >= cw * ch,
            all_premultiplied(cursor_pixels@),
            forall|i: int|
                0 <= i < frame.len() ==> #[trigger] buffer@[i] == drawn::<P>(
                    frame,
                    rotation,
                    width,
                    height,
                    mouse_position,
                    cursor_pixels@,
                    cw,
                    ch,
                    cy as int,
                    0,
                    i,
                ),
        decreases rows - cy,
    {
        let mut cx: i32 = 0;
        while cx < columns
            invariant
                0 <= cx <= columns,
                0 <= cy < rows,
                0 <= width && 0 <= height && 0 <= cw && 0 <= ch,
                screen_width == width,
                screen_height == height,
                columns == cw,
                rows == ch,
                cursor_fits(rotation, width, height, mouse_position, cw, ch),
                buffer@.len() == frame.len(),
                frame.len() >= width * height,
                cursor_pixels@.len() >= cw * ch,
                all_premultiplied(cursor_pixels@),
                forall|i: int|
                    0 <= i < frame.len() ==> #[trigger] buffer@[i] == drawn::<P>(
                        frame,
                        rotation,
                        width,
                        height,
                        mouse_position,
                        cursor_pixels@,
                        cw,
                        ch,
                        cy as int,
                        cx as int,
                        i,
                    ),
            decreases columns - cx,
        {
            let ghost before = buffer@;
            let (bx, by): (i32, i32) = window_to_buffer(
                rotation,
                screen_width,
                screen_height,
                mouse_position.x + cx,
                mouse_position.y + cy,
            );
            if bx >= 0 && bx < screen_width && by >= 0 && by < screen_height {
                proof {
                    lemma_cell_and_pixel(
                        rotation,
                        width,
                        height,
                        mouse_position,
                        cx as int,
                        cy as int,
                        by * width + bx,
                    );
                    assert(0 <= cy * columns + cx < cw * ch && 0 <= cy * columns <= cw * ch)
                        by (nonlinear_arith)
                        requires
                            0 <= cx < columns,
                            0 <= cy < rows,
                            columns == cw,
                            rows == ch,
                    ;
                    assert(0 <= by * screen_width) by (nonlinear_arith)
                        requires
                            0 <= by,
                            0 <= screen_width,
                    ;
                }
                let src: PremultipliedRgbaColor = cursor_pixels[(cy * columns + cx) as usize];
                let target: usize = (by * screen_width + bx) as usize;
                let mut dst: P = P::from_word(buffer[target]);
                dst.blend(src);
                buffer[target] = dst.into_word();
            }
            assert forall|i: int| 0 <= i < frame.len() implies #[trigger] buffer@[i] == drawn::<P>(
                frame,
                rotation,
                width,
                height,
                mouse_position,
                cursor_pixels@,
                cw,
                ch,
                cy as int,
                cx + 1,
                i,
            ) by {
                assert(before[i] == drawn::<P>(
                    frame,
                    rotation,
                    width,
                    height,
                    mouse_position,
                    cursor_pixels@,
                    cw,
                    ch,
                    cy as int,
                    cx as int,
                    i,
                ));
                if 0 < width {
                    lemma_cell_and_pixel(
                        rotation,
                        width,
                        height,
                        mouse_position,
                        cx as int,
                        cy as int,
                        i,
                    );
                }
            }
            cx += 1;
        }
        cy += 1;
    }
}

/// The cursor tracks the pointer under any rotation: each of its pixels that lies
/// inside the window is blended where the renderer shows that window pixel.
pub proof fn cursor_tracks_the_pointer<P: TargetPixel>(
    frame: Seq<P::Word>,
    rotation: RenderingRotation,
    width: int,
    height: int,
    at: PhysicalPosition,
    cursor: Seq<PremultipliedRgbaColor>,
    cw: int,
    ch: int,
    cx: int,
    cy: int,
)
    requires
        frame.len() >= width * height,
        0 <= cx < cw,
        0 <= cy < ch,
        0 <= at.x + cx < rotated_extent(rotation, width, height).0,
        0 <= at.y + cy < rotated_extent(rotation, width, height).1,
    ensures
        ({
            let (w, h) = rotated_extent(rotation, width, height);
            let (bx, by) = buffer_position(rotation, w, h, at.x + cx, at.y + cy);
            let i = by * width + bx;
            &&& 0 <= bx < width && 0 <= by < height
            &&& frame_with_cursor::<P>(frame, rotation, width, height, at, cursor, cw, ch)[i]
                == P::of_word(frame[i]).blended(cursor[cy * cw + cx]).word()
        }),
{
    let (w, h) = rotated_extent(rotation, width, height);
    let (bx, by) = buffer_position(rotation, w, h, at.x + cx, at.y + cy);
    window_pixels_are_on_screen(rotation, width, height, at.x + cx, at.y + cy);
    lemma_cell_and_pixel(rotation, width, height, at, cx, cy, by * width + bx);
}

/// The cursor changes nothing but the pixels that it reaches.
pub proof fn cursor_changes_nothing_else<P: TargetPixel>(
    frame: Seq<P::Word>,
    rotation: RenderingRotation,
    width: int,
    height: int,
    at: PhysicalPosition,
    cursor: Seq<PremultipliedRgbaColor>,
    cw: int,
    ch: int,
    i: int,
)
    requires
        0 < width,
        0 <= i < frame.len(),
        forall|cx: int, cy: int|
            #![trigger buffer_position(
                rotation,
                rotated_extent(rotation, width, height).0,
                rotated_extent(rotation, width, height).1,
                at.x + cx,
                at.y + cy,
            )]
            0 <= cx < cw && 0 <= cy < ch ==> {
                let (w, h) = rotated_extent(rotation, width, height);
                let (bx, by) = buffer_position(rotation, w, h, at.x + cx, at.y + cy);
                !(0 <= bx < width && 0 <= by < height && i == by * width + bx)
            },
    ensures
        frame_with_cursor::<P>(frame, rotation, width, height, at, cursor, cw, ch)[i] == frame[i],
{
    let (cx, cy) = cursor_cell(rotation, width, height, at, i);
    if cursor_covers(rotation, width, height, at, cw, ch, i) {
        let (w, h) = rotated_extent(rotation, width, height);
        lemma_cell_and_pixel(rotation, width, height, at, cx, cy, i);
        let (bx, by) = buffer_position(rotation, w, h, at.x + cx, at.y + cy);
        assert(0 <= cx < cw && 0 <= cy < ch);
    }
}

/// The frame keeps its length, what lies behind the screen's pixels stays as it is,
/// and a screen without pixels shows no cursor.
pub proof fn the_cursor_stays_on_the_screen<P: TargetPixel>(
    frame: Seq<P::Word>,
    rotation: RenderingRotation,
    width: int,
    height: int,
    at: PhysicalPosition,
    cursor: Seq<PremultipliedRgbaColor>,
    cw: int,
    ch: int,
)
    ensures
        ({
            let after = frame_with_cursor::<P>(frame, rotation, width, height, at, cursor, cw, ch);
            &&& after.len() == frame.len()
            &&& forall|i: int|
                0 <= i < frame.len() && width * height <= i ==> #[trigger] after[i] == frame[i]
            &&& cw <= 0 || ch <= 0 ==> after == frame
        }),
{
    let after = frame_with_cursor::<P>(frame, rotation, width, height, at, cursor, cw, ch);
    if cw <= 0 || ch <= 0 {
        assert(after =~= frame);
    }
}

/// A cursor can be composited wherever sizes and position are within reason: no
/// extent above a thousand million, no more pixels than can be counted, and a
/// pointer that is no farther away than that, on either side of the window.
pub proof fn a_cursor_near_the_window_can_be_composited(
    rotation: RenderingRotation,
    width: int,
    height: int,
    at: PhysicalPosition,
    cw: int,
    ch: int,
)
    requires
        0 <= width <= 1_000_000_000,
        0 <= height <= 1_000_000_000,
        0 <= cw <= 1_000_000_000,
        0 <= ch <= 1_000_000_000,
        width * height <= i32::MAX,
        cw * ch <= i32::MAX,
        -1_000_000_000 <= at.x <= 1_000_000_000,
        -1_000_000_000 <= at.y <= 1_000_000_000,
    ensures
        cursor_fits(rotation, width, height, at, cw, ch),
{
}

/// An image is premultiplied exactly if each of its pixels is: no channel of it
/// exceeds its alpha.
pub proof fn an_image_is_premultiplied_pixel_by_pixel(
    cursor: Seq<PremultipliedRgbaColor>,
    pixel: PremultipliedRgbaColor,
)
    ensures
        all_premultiplied(Seq::empty()),
        all_premultiplied(cursor.push(pixel)) <==> all_premultiplied(cursor) && pixel.red
            <= pixel.alpha && pixel.green <= pixel.alpha && pixel.blue <= pixel.alpha,
{
    let all = cursor.push(pixel);
    assert(all[cursor.len() as int] == pixel);
    assert forall|i: int| 0 <= i < cursor.len() implies #[trigger] all[i] == cursor[i] by {}
    if all_premultiplied(all) {
        assert forall|i: int| 0 <= i < cursor.len() implies (#[trigger] cursor[i]).premultiplied() by {
            assert(all[i] == cursor[i]);
        }
        assert(all[cursor.len() as int].premultiplied());
    }
}

} // verus!
