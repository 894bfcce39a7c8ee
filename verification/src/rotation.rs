//! Rotation of the rendered scene, and the mapping from window pixels to
//! frame-buffer pixels that goes with it.

use vstd::prelude::*;

use crate::text::decimal_text;

verus! {

/// How the scene is turned before it is shown on the physical screen.
#[derive(Clone, Copy, PartialEq, Eq, Structural, Debug)]
pub enum RenderingRotation {
    /// No rotation.
    NoRotation,
    /// A quarter turn to the right.
    Rotate90,
    /// Upside down.
    Rotate180,
    /// A quarter turn to the left.
    Rotate270,
}

impl Default for RenderingRotation {
    /// The scene is shown as it is laid out.
    fn default() -> (rotation: Self)
        ensures
            rotation == RenderingRotation::NoRotation,
    {
        RenderingRotation::NoRotation
    }
}

impl RenderingRotation {
    /// Whether the rotation exchanges the horizontal and the vertical axis.
    pub open spec fn transposes(self) -> bool {
        self is Rotate90 || self is Rotate270
    }

    /// Whether the mapping runs the window's x axis backwards.
    pub open spec fn mirrors_width(self) -> bool {
        self is Rotate180 || self is Rotate270
    }

    /// Whether the mapping runs the window's y axis backwards.
    pub open spec fn mirrors_height(self) -> bool {
        self is Rotate90 || self is Rotate180
    }
}

/// The extent of the window that fills a `width` x `height` screen under
/// `rotation`: the screen's extent, rotated back.
pub open spec fn rotated_extent(rotation: RenderingRotation, width: int, height: int) -> (int, int) {
    if rotation.transposes() {
        (height, width)
    } else {
        (width, height)
    }
}

/// Where the window pixel `(x, y)` of a `width` x `height` window lands in the
/// screen-oriented frame buffer.
pub open spec fn buffer_position(
    rotation: RenderingRotation,
    width: int,
    height: int,
    x: int,
    y: int,
) -> (int, int) {
    match rotation {
        RenderingRotation::NoRotation => (x, y),
        RenderingRotation::Rotate90 => (height - 1 - y, x),
        RenderingRotation::Rotate180 => (width - 1 - x, height - 1 - y),
        RenderingRotation::Rotate270 => (y, width - 1 - x),
    }
}

/// The window pixel of a `width` x `height` window that is shown at the
/// frame-buffer position `(bx, by)`.
pub open spec fn window_position(
    rotation: RenderingRotation,
    width: int,
    height: int,
    bx: int,
    by: int,
) -> (int, int) {
    match rotation {
        RenderingRotation::NoRotation => (bx, by),
        RenderingRotation::Rotate90 => (by, height - 1 - bx),
        RenderingRotation::Rotate180 => (width - 1 - bx, height - 1 - by),
        RenderingRotation::Rotate270 => (width - 1 - by, bx),
    }
}

/// The subtractions of the mapping stay inside `i32`.
pub open spec fn mapping_fits(
    rotation: RenderingRotation,
    width: int,
    height: int,
    x: int,
    y: int,
) -> bool {
    &&& rotation.mirrors_width() ==> i32::MIN <= width - 1 && i32::MIN <= width - 1 - x <= i32::MAX
    &&& rotation.mirrors_height() ==> i32::MIN <= height - 1 && i32::MIN <= height - 1 - y
        <= i32::MAX
}

/// Maps a window pixel (physical, before rotation) to its position in the
/// screen-oriented frame buffer: mirror, then transpose, as the software
/// renderer does with the scene. The pixel counts in the window, which is the
/// screen rotated back, so it is mirrored there.
pub fn window_to_buffer(
    rotation: RenderingRotation,
    screen_width: i32,
    screen_height: i32,
    x: i32,
    y: i32,
) -> (position: (i32, i32))
    requires
        ({
            let (w, h) = rotated_extent(rotation, screen_width as int, screen_height as int);
            mapping_fits(rotation, w, h, x as int, y as int)
        }),
    ensures
        ({
            let (w, h) = rotated_extent(rotation, screen_width as int, screen_height as int);
            (position.0 as int, position.1 as int) == buffer_position(
                rotation,
                w,
                h,
                x as int,
                y as int,
            )
        }),
{
    let (width, height): (i32, i32) = window_extent(rotation, screen_width, screen_height);
    let (mut x, mut y): (i32, i32) = (x, y);
    if matches!(rotation, RenderingRotation::Rotate270 | RenderingRotation::Rotate180) {
        x = width - 1 - x;
    }
    if matches!(rotation, RenderingRotation::Rotate90 | RenderingRotation::Rotate180) {
        y = height - 1 - y;
    }
    if matches!(rotation, RenderingRotation::Rotate90 | RenderingRotation::Rotate270) {
        std::mem::swap(&mut x, &mut y);
    }
    (x, y)
}

/// The extent of the window that fills a `screen_width` x `screen_height`
/// screen: a quarter turn exchanges the two.
pub fn window_extent(rotation: RenderingRotation, screen_width: i32, screen_height: i32) -> (extent: (
    i32,
    i32,
))
    ensures
        (extent.0 as int, extent.1 as int) == rotated_extent(
            rotation,
            screen_width as int,
            screen_height as int,
        ),
{
    match rotation {
        RenderingRotation::Rotate90 | RenderingRotation::Rotate270 => (screen_height, screen_width),
        _ => (screen_width, screen_height),
    }
}

/// Every pixel of the window is shown on the screen, at a position that leads
/// back to that pixel.
pub proof fn window_pixels_are_on_screen(
    rotation: RenderingRotation,
    width: int,
    height: int,
    x: int,
    y: int,
)
    ensures
        ({
            let (w, h) = rotated_extent(rotation, width, height);
            let (bx, by) = buffer_position(rotation, w, h, x, y);
            &&& 0 <= bx < width && 0 <= by < height <==> 0 <= x < w && 0 <= y < h
            &&& window_position(rotation, w, h, bx, by) == (x, y)
        }),
{
}

/// Every pixel of the screen shows a pixel of the window, and the mapping
/// leads from there to that screen pixel.
pub proof fn screen_pixels_show_the_window(
    rotation: RenderingRotation,
    width: int,
    height: int,
    bx: int,
    by: int,
)
    ensures
        ({
            let (w, h) = rotated_extent(rotation, width, height);
            let (x, y) = window_position(rotation, w, h, bx, by);
            &&& 0 <= x < w && 0 <= y < h <==> 0 <= bx < width && 0 <= by < height
            &&& buffer_position(rotation, w, h, x, y) == (bx, by)
        }),
{
}

/// Two different window pixels never share a frame-buffer position.
pub proof fn window_pixels_do_not_collide(
    rotation: RenderingRotation,
    width: int,
    height: int,
    a: (int, int),
    b: (int, int),
)
    requires
        buffer_position(rotation, width, height, a.0, a.1) == buffer_position(
            rotation,
            width,
            height,
            b.0,
            b.1,
        ),
    ensures
        a == b,
{
}

/// Two quarter turns make half a turn, and three undo one.
pub proof fn quarter_turns_add_up(width: int, height: int, x: int, y: int)
    ensures
        ({
            let (qx, qy) = buffer_position(RenderingRotation::Rotate90, width, height, x, y);
            &&& buffer_position(RenderingRotation::Rotate90, height, width, qx, qy)
                == buffer_position(RenderingRotation::Rotate180, width, height, x, y)
            &&& buffer_position(RenderingRotation::Rotate270, height, width, qx, qy) == (x, y)
        }),
{
}

/// The rotation that is set by its degrees, clockwise: `0`, `90`, `180` or `270`.
pub open spec fn rotation_of(degrees: Seq<char>) -> Option<RenderingRotation> {
    if degrees == "0"@ {
        Some(RenderingRotation::NoRotation)
    } else if degrees == "90"@ {
        Some(RenderingRotation::Rotate90)
    } else if degrees == "180"@ {
        Some(RenderingRotation::Rotate180)
    } else if degrees == "270"@ {
        Some(RenderingRotation::Rotate270)
    } else {
        None
    }
}

impl RenderingRotation {
    /// The rotation that is set by its degrees.
    pub fn from_degrees(degrees: &String) -> (rotation: Option<RenderingRotation>)
        ensures
            rotation == rotation_of(degrees@),
    {
        if degrees.eq(&String::from_str("0")) {
            Some(RenderingRotation::NoRotation)
        } else if degrees.eq(&String::from_str("90")) {
            Some(RenderingRotation::Rotate90)
        } else if degrees.eq(&String::from_str("180")) {
            Some(RenderingRotation::Rotate180)
        } else if degrees.eq(&String::from_str("270")) {
            Some(RenderingRotation::Rotate270)
        } else {
            None
        }
    }
}

/// The rotation of a new window. `parsed` is what the setting was read as, if
/// there is one; without one the scene is not rotated.
pub fn window_rotation(parsed: Option<Result<RenderingRotation, String>>) -> (rotation: Result<
    RenderingRotation,
    String,
>)
    ensures
        match parsed {
            None => rotation == Ok::<RenderingRotation, String>(RenderingRotation::NoRotation),
            Some(Ok(set)) => rotation == Ok::<RenderingRotation, String>(set),
            Some(Err(err)) => rotation matches Err(message) && message@
                == "Failed to parse SLINT_KMS_ROTATION: "@ + err@,
        },
{
    match parsed {
        None => Ok(RenderingRotation::default()),
        Some(Ok(set)) => Ok(set),
        Some(Err(err)) => {
            let mut message = String::from_str("Failed to parse SLINT_KMS_ROTATION: ");
            message.append(err.as_str());
            Err(message)
        },
    }
}

/// Rotations go clockwise: the window's top left corner is at the screen's top
/// left, top right, bottom right and bottom left in turn, and a step in the window
/// is the same step on the screen, turned as far.
pub proof fn rotations_go_clockwise(width: int, height: int, x: int, y: int, dx: int, dy: int)
    ensures
        ({
            let at = |rotation: RenderingRotation, x: int, y: int|
                {
                    let (w, h) = rotated_extent(rotation, width, height);
                    buffer_position(rotation, w, h, x, y)
                };
            let step = |rotation: RenderingRotation|
                {
                    let (from, to) = (at(rotation, x, y), at(rotation, x + dx, y + dy));
                    (to.0 - from.0, to.1 - from.1)
                };
            &&& at(RenderingRotation::NoRotation, 0, 0) == (0int, 0int)
            &&& at(RenderingRotation::Rotate90, 0, 0) == (width - 1, 0int)
            &&& at(RenderingRotation::Rotate180, 0, 0) == (width - 1, height - 1)
            &&& at(RenderingRotation::Rotate270, 0, 0) == (0int, height - 1)
            &&& step(RenderingRotation::NoRotation) == (dx, dy)
            &&& step(RenderingRotation::Rotate90) == (-dy, dx)
            &&& step(RenderingRotation::Rotate180) == (-dx, -dy)
            &&& step(RenderingRotation::Rotate270) == (dy, -dx)
        }),
{
}

/// A quarter turn to either side exchanges the extent of screen and window, and no
/// other rotation does.
pub proof fn quarter_turns_exchange_the_extent(width: int, height: int)
    ensures
        rotated_extent(RenderingRotation::NoRotation, width, height) == (width, height),
        rotated_extent(RenderingRotation::Rotate90, width, height) == (height, width),
        rotated_extent(RenderingRotation::Rotate180, width, height) == (width, height),
        rotated_extent(RenderingRotation::Rotate270, width, height) == (height, width),
{
}

/// Every pixel of a window can be mapped, and so can every position that is not
/// absurdly far outside of it; without rotation any position can.
pub proof fn positions_near_the_window_can_be_mapped(
    rotation: RenderingRotation,
    width: int,
    height: int,
    x: int,
    y: int,
)
    requires
        0 <= width <= i32::MAX,
        0 <= height <= i32::MAX,
    ensures
        0 <= x <= i32::MAX && 0 <= y <= i32::MAX ==> mapping_fits(rotation, width, height, x, y),
        width <= 0x4000_0000 && height <= 0x4000_0000 && -0x4000_0000 < x <= i32::MAX
            && -0x4000_0000 < y <= i32::MAX ==> mapping_fits(rotation, width, height, x, y),
        rotation is NoRotation ==> mapping_fits(rotation, width, height, x, y),
{
}

/// A rotation is set by its degrees in decimal, as many quarter turns as there are,
/// and by nothing else.
pub proof fn rotations_are_set_by_their_degrees(degrees: Seq<char>)
    ensures
        rotation_of(degrees) == Some(RenderingRotation::NoRotation) <==> degrees == decimal_text(0),
        rotation_of(degrees) == Some(RenderingRotation::Rotate90) <==> degrees == decimal_text(90),
        rotation_of(degrees) == Some(RenderingRotation::Rotate180) <==> degrees == decimal_text(
            180,
        ),
        rotation_of(degrees) == Some(RenderingRotation::Rotate270) <==> degrees == decimal_text(
            270,
        ),
{
    reveal_with_fuel(decimal_text, 3);
    reveal_strlit("0");
    reveal_strlit("1");
    reveal_strlit("2");
    reveal_strlit("7");
    reveal_strlit("8");
    reveal_strlit("9");
    reveal_strlit("90");
    reveal_strlit("180");
    reveal_strlit("270");
    assert(decimal_text(90) =~= "90"@);
    assert(decimal_text(180) =~= "180"@);
    assert(decimal_text(270) =~= "270"@);
    assert("0"@.len() == 1 && "90"@.len() == 2 && "180"@.len() == 3 && "270"@.len() == 3);
    assert("180"@[0] != "270"@[0]);
}

} // verus!
