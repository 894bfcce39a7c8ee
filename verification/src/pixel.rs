//! Frame-buffer pixels and the blending of premultiplied colors over them.

use vstd::prelude::*;

verus! {

/// A color whose red, green and blue were multiplied by its alpha already.
#[derive(Clone, Copy, PartialEq, Eq, Structural, Debug)]
pub struct PremultipliedRgbaColor {
    pub red: u8,
    pub green: u8,
    pub blue: u8,
    pub alpha: u8,
}

impl PremultipliedRgbaColor {
    /// No channel exceeds alpha, which is what multiplying by alpha leaves.
    pub open spec fn premultiplied(self) -> bool {
        self.red <= self.alpha && self.green <= self.alpha && self.blue <= self.alpha
    }

    /// `color` over `self`, channel by channel.
    pub open spec fn blended(self, color: PremultipliedRgbaColor) -> PremultipliedRgbaColor {
        PremultipliedRgbaColor {
            red: blended_channel(self.red, color.red, color.alpha),
            green: blended_channel(self.green, color.green, color.alpha),
            blue: blended_channel(self.blue, color.blue, color.alpha),
            alpha: (self.alpha + color.alpha - self.alpha as int * color.alpha as int / 255) as u8,
        }
    }

    /// Whether every channel is at most alpha.
    pub fn is_premultiplied(&self) -> (b: bool)
        ensures
            b == self.premultiplied(),
    {
        self.red <= self.alpha && self.green <= self.alpha && self.blue <= self.alpha
    }
}

/// One channel of a premultiplied color over the same channel below it.
pub open spec fn blended_channel(below: u8, above: u8, alpha: u8) -> u8 {
    (below as int * (255 - alpha) / 255 + above) as u8
}

/// `PremultipliedRgbaColor::blend` of `i_slint_renderer_software`: red, green
/// and blue of the pixel below are scaled by what `color` lets through (255
/// minus its alpha, out of 255, rounded down) and the channel of `color` is
/// added; the alphas combine as `a + b - a * b / 255`.
#[verifier::external_body]
fn blend_color(below: PremultipliedRgbaColor, color: PremultipliedRgbaColor) -> (blended:
    PremultipliedRgbaColor)
    requires
        color.premultiplied(),
    ensures
        blended == below.blended(color),
{
    let mut pixel = i_slint_renderer_software::PremultipliedRgbaColor {
        red: below.red, green: below.green, blue: below.blue, alpha: below.alpha,
    };
    i_slint_renderer_software::TargetPixel::blend(
        &mut pixel,
        i_slint_renderer_software::PremultipliedRgbaColor {
            red: color.red, green: color.green, blue: color.blue, alpha: color.alpha,
        },
    );
    PremultipliedRgbaColor {
        red: pixel.red, green: pixel.green, blue: pixel.blue, alpha: pixel.alpha,
    }
}

/// A pixel of a frame buffer that colors can be blended over.
pub trait TargetPixel: Sized + Copy {
    /// The machine word that holds the pixel in memory.
    type Word: Copy;

    /// The pixel that a word holds.
    spec fn of_word(word: Self::Word) -> Self;

    /// The word that holds this pixel.
    spec fn word(self) -> Self::Word;

    /// The pixel after `color` was blended over it.
    spec fn blended(self, color: PremultipliedRgbaColor) -> Self;

    /// The pixel that a word holds.
    fn from_word(word: Self::Word) -> (pixel: Self)
        ensures
            pixel == Self::of_word(word),
    ;

    /// The word that holds this pixel.
    fn into_word(self) -> (word: Self::Word)
        ensures
            word == self.word(),
    ;

    /// Blends `color` over this pixel.
    fn blend(&mut self, color: PremultipliedRgbaColor)
        requires
            color.premultiplied(),
        ensures
            *final(self) == old(self).blended(color),
    ;
}

/// A word with alpha in the highest byte, then red, green and blue.
#[derive(Clone, Copy, PartialEq, Eq, Structural, Debug)]
pub struct DumbBufferPixelXrgb888(pub u32);

/// A word with blue in the highest byte, then green, red and alpha.
#[derive(Clone, Copy, PartialEq, Eq, Structural, Debug)]
pub struct DumbBufferPixelBgra8888(pub u32);

/// A word of five red, six green and five blue bits.
#[derive(Clone, Copy, PartialEq, Eq, Structural, Debug)]
pub struct Rgb565Pixel(pub u16);

/// The word whose bytes are, from the highest, `b3`, `b2`, `b1` and `b0`.
pub open spec fn word_of_bytes(b3: u8, b2: u8, b1: u8, b0: u8) -> u32 {
    (b3 * 0x100_0000 + b2 * 0x1_0000 + b1 * 0x100 + b0) as u32
}

/// Byte `i` of a word, counted from the lowest.
pub open spec fn byte_of_word(v: u32, i: int) -> u8 {
    if i == 0 {
        (v % 0x100) as u8
    } else if i == 1 {
        (v / 0x100 % 0x100) as u8
    } else if i == 2 {
        (v / 0x1_0000 % 0x100) as u8
    } else {
        (v / 0x100_0000) as u8
    }
}

/// Shifting and cutting to a byte reads the bytes of a word.
proof fn lemma_bytes_by_shift(v: u32)
    ensures
        v as u8 == byte_of_word(v, 0),
        (v >> 8) as u8 == byte_of_word(v, 1),
        (v >> 16) as u8 == byte_of_word(v, 2),
        (v >> 24) as u8 == byte_of_word(v, 3),
{
    assert(v as u8 == (v % 0x100) as u8) by (bit_vector);
    assert((v >> 8) as u8 == (v / 0x100 % 0x100) as u8) by (bit_vector);
    assert((v >> 16) as u8 == (v / 0x1_0000 % 0x100) as u8) by (bit_vector);
    assert((v >> 24) as u8 == (v / 0x100_0000) as u8) by (bit_vector);
}

/// Shifting bytes into place and joining them makes the word.
proof fn lemma_word_by_shift(b3: u8, b2: u8, b1: u8, b0: u8)
    ensures
        (b3 as u32) << 24 | (b2 as u32) << 16 | (b1 as u32) << 8 | (b0 as u32) == word_of_bytes(
            b3,
            b2,
            b1,
            b0,
        ),
        (b0 as u32) | (b1 as u32) << 8 | (b2 as u32) << 16 | (b3 as u32) << 24 == word_of_bytes(
            b3,
            b2,
            b1,
            b0,
        ),
{
    assert((b3 as u32) << 24 | (b2 as u32) << 16 | (b1 as u32) << 8 | (b0 as u32) == b3
        * 0x100_0000 + b2 * 0x1_0000 + b1 * 0x100 + b0) by (bit_vector);
    assert((b0 as u32) | (b1 as u32) << 8 | (b2 as u32) << 16 | (b3 as u32) << 24 == b3
        * 0x100_0000 + b2 * 0x1_0000 + b1 * 0x100 + b0) by (bit_vector);
}

/// Splitting a word into bytes and joining them again changes nothing, and
/// neither does joining bytes and splitting the word.
pub proof fn word_and_bytes_agree(v: u32, b3: u8, b2: u8, b1: u8, b0: u8)
    ensures
        word_of_bytes(
            byte_of_word(v, 3),
            byte_of_word(v, 2),
            byte_of_word(v, 1),
            byte_of_word(v, 0),
        ) == v,
        byte_of_word(word_of_bytes(b3, b2, b1, b0), 3) == b3,
        byte_of_word(word_of_bytes(b3, b2, b1, b0), 2) == b2,
        byte_of_word(word_of_bytes(b3, b2, b1, b0), 1) == b1,
        byte_of_word(word_of_bytes(b3, b2, b1, b0), 0) == b0,
{
    assert((v / 0x100_0000) * 0x100_0000 + (v / 0x1_0000 % 0x100) * 0x1_0000 + (v / 0x100 % 0x100)
        * 0x100 + v % 0x100 == v) by (bit_vector);
    assert(v / 0x100_0000 < 0x100) by (bit_vector);
    let w = word_of_bytes(b3, b2, b1, b0);
    assert(w / 0x100_0000 == b3 && w / 0x1_0000 % 0x100 == b2 && w / 0x100 % 0x100 == b1 && w
        % 0x100 == b0) by (bit_vector)
        requires
            w == b3 * 0x100_0000 + b2 * 0x1_0000 + b1 * 0x100 + b0,
    ;
}

impl TargetPixel for DumbBufferPixelXrgb888 {
    type Word = u32;

    open spec fn of_word(word: u32) -> Self {
        DumbBufferPixelXrgb888(word)
    }

    open spec fn word(self) -> u32 {
        self.0
    }

    open spec fn blended(self, color: PremultipliedRgbaColor) -> Self {
        DumbBufferPixelXrgb888::of_color(self.color().blended(color))
    }

    fn from_word(word: u32) -> (pixel: Self) {
        DumbBufferPixelXrgb888(word)
    }

    fn into_word(self) -> (word: u32) {
        self.0
    }

    fn blend(&mut self, color: PremultipliedRgbaColor) {
        let below = self.to_color();
        let x = blend_color(below, color);
        *self = DumbBufferPixelXrgb888::from_color(x);
    }
}

impl TargetPixel for DumbBufferPixelBgra8888 {
    type Word = u32;

    open spec fn of_word(word: u32) -> Self {
        DumbBufferPixelBgra8888(word)
    }

    open spec fn word(self) -> u32 {
        self.0
    }

    open spec fn blended(self, color: PremultipliedRgbaColor) -> Self {
        DumbBufferPixelBgra8888::of_color(self.color().blended(color))
    }

    fn from_word(word: u32) -> (pixel: Self) {
        DumbBufferPixelBgra8888(word)
    }

    fn into_word(self) -> (word: u32) {
        self.0
    }

    fn blend(&mut self, color: PremultipliedRgbaColor) {
        let below = self.to_color();
        let x = blend_color(below, color);
        *self = DumbBufferPixelBgra8888::from_color(x);
    }
}

impl TargetPixel for Rgb565Pixel {
    type Word = u16;

    open spec fn of_word(word: u16) -> Self {
        Rgb565Pixel(word)
    }

    open spec fn word(self) -> u16 {
        self.0
    }

    open spec fn blended(self, color: PremultipliedRgbaColor) -> Self {
        let through = (259 - color.alpha) / 8;
        Rgb565Pixel::of_fields(
            blended_field(self.red_field(), color.red as int / 8, through),
            blended_field(self.green_field(), color.green as int / 4, through),
            blended_field(self.blue_field(), color.blue as int / 8, through),
        )
    }

    fn from_word(word: u16) -> (pixel: Self) {
        Rgb565Pixel(word)
    }

    fn into_word(self) -> (word: u16) {
        self.0
    }

    fn blend(&mut self, color: PremultipliedRgbaColor) {
        *self = blend_rgb565(*self, color);
    }
}

impl DumbBufferPixelXrgb888 {
    /// The color that the word holds.
    pub open spec fn color(self) -> PremultipliedRgbaColor {
        PremultipliedRgbaColor {
            red: byte_of_word(self.0, 2),
            green: byte_of_word(self.0, 1),
            blue: byte_of_word(self.0, 0),
            alpha: byte_of_word(self.0, 3),
        }
    }

    /// The word that holds `color`.
    pub open spec fn of_color(color: PremultipliedRgbaColor) -> Self {
        DumbBufferPixelXrgb888(word_of_bytes(color.alpha, color.red, color.green, color.blue))
    }

    /// Reads the word as a color.
    pub fn to_color(self) -> (color: PremultipliedRgbaColor)
        ensures
            color == self.color(),
    {
        let v: u32 = self.0;
        proof {
            lemma_bytes_by_shift(v);
        }
        PremultipliedRgbaColor {
            red: #[verifier::truncate] ((v >> 16) as u8),
            green: #[verifier::truncate] ((v >> 8) as u8),
            blue: #[verifier::truncate] (v as u8),
            alpha: #[verifier::truncate] ((v >> 24) as u8),
        }
    }

    /// Writes a color as a word.
    pub fn from_color(color: PremultipliedRgbaColor) -> (pixel: Self)
        ensures
            pixel == Self::of_color(color),
    {
        proof {
            lemma_word_by_shift(color.alpha, color.red, color.green, color.blue);
        }
        DumbBufferPixelXrgb888(
            (color.alpha as u32) << 24 | ((color.red as u32) << 16) | ((color.green as u32) << 8) | (
            color.blue as u32),
        )
    }

    /// The opaque pixel of the given red, green and blue.
    pub fn from_rgb(r: u8, g: u8, b: u8) -> (pixel: Self)
        ensures
            pixel == Self::of_color(
                (PremultipliedRgbaColor { red: r, green: g, blue: b, alpha: 0xff }),
            ),
    {
        proof {
            lemma_word_by_shift(0xff, r, g, b);
            assert(0xffu32 << 24 == 0xff000000u32) by (bit_vector);
        }
        DumbBufferPixelXrgb888(0xff000000 | ((r as u32) << 16) | ((g as u32) << 8) | (b as u32))
    }

    /// The pixel that a transparent window shows: all bits clear.
    pub fn background() -> (pixel: Self)
        ensures
            pixel.0 == 0,
    {
        DumbBufferPixelXrgb888(0)
    }
}

impl DumbBufferPixelBgra8888 {
    /// The color that the word holds.
    pub open spec fn color(self) -> PremultipliedRgbaColor {
        PremultipliedRgbaColor {
            red: byte_of_word(self.0, 1),
            green: byte_of_word(self.0, 2),
            blue: byte_of_word(self.0, 3),
            alpha: byte_of_word(self.0, 0),
        }
    }

    /// The word that holds `color`.
    pub open spec fn of_color(color: PremultipliedRgbaColor) -> Self {
        DumbBufferPixelBgra8888(word_of_bytes(color.blue, color.green, color.red, color.alpha))
    }

    /// Reads the word as a color.
    pub fn to_color(self) -> (color: PremultipliedRgbaColor)
        ensures
            color == self.color(),
    {
        let v: u32 = self.0;
        proof {
            lemma_bytes_by_shift(v);
        }
        PremultipliedRgbaColor {
            red: #[verifier::truncate] ((v >> 8) as u8),
            green: #[verifier::truncate] ((v >> 16) as u8),
            blue: #[verifier::truncate] ((v >> 24) as u8),
            alpha: #[verifier::truncate] (v as u8),
        }
    }

    /// Writes a color as a word.
    pub fn from_color(color: PremultipliedRgbaColor) -> (pixel: Self)
        ensures
            pixel == Self::of_color(color),
    {
        proof {
            lemma_word_by_shift(color.blue, color.green, color.red, color.alpha);
        }
        DumbBufferPixelBgra8888(
            color.alpha as u32 | ((color.red as u32) << 8) | ((color.green as u32) << 16) | ((
            color.blue as u32) << 24),
        )
    }

    /// The opaque pixel of the given red, green and blue.
    pub fn from_rgb(r: u8, g: u8, b: u8) -> (pixel: Self)
        ensures
            pixel == Self::of_color(
                (PremultipliedRgbaColor { red: r, green: g, blue: b, alpha: 0xff }),
            ),
    {
        proof {
            lemma_word_by_shift(b, g, r, 0xff);
        }
        DumbBufferPixelBgra8888(
            0x000000ff | ((r as u32) << 8) | ((g as u32) << 16) | ((b as u32) << 24),
        )
    }

    /// The pixel that a transparent window shows: all bits clear.
    pub fn background() -> (pixel: Self)
        ensures
            pixel.0 == 0,
    {
        DumbBufferPixelBgra8888(0)
    }
}

impl Rgb565Pixel {
    /// The five red bits.
    pub open spec fn red_field(self) -> int {
        self.0 as int / 2048
    }

    /// The six green bits.
    pub open spec fn green_field(self) -> int {
        self.0 as int / 32 % 64
    }

    /// The five blue bits.
    pub open spec fn blue_field(self) -> int {
        self.0 as int % 32
    }

    /// The pixel with the given fields.
    pub open spec fn of_fields(red: int, green: int, blue: int) -> Self {
        Rgb565Pixel((red * 2048 + green * 32 + blue) as u16)
    }
}

/// One field of a pixel, of which `through` thirty-seconds remain, under the
/// same field of a premultiplied color.
pub open spec fn blended_field(below: int, above: int, through: int) -> int {
    (below * through + above * 32) / 32
}

/// `Rgb565Pixel::blend` of `i_slint_renderer_software`: what `color` lets
/// through is rounded to thirty-seconds, its channels are cut to five, six and
/// five bits, and each field becomes the scaled field plus the channel, rounded
/// down.
#[verifier::external_body]
fn blend_rgb565(below: Rgb565Pixel, color: PremultipliedRgbaColor) -> (blended: Rgb565Pixel)
    requires
        color.premultiplied(),
    ensures
        blended == below.blended(color),
{
    let mut pixel = i_slint_renderer_software::Rgb565Pixel(below.0);
    i_slint_renderer_software::TargetPixel::blend(
        &mut pixel,
        i_slint_renderer_software::PremultipliedRgbaColor {
            red: color.red, green: color.green, blue: color.blue, alpha: color.alpha,
        },
    );
    Rgb565Pixel(pixel.0)
}

/// Reading a pixel as a color and writing the color back keeps the pixel, and
/// writing a color and reading it back keeps the color, in both word layouts.
pub proof fn pixel_and_color_agree(
    x: DumbBufferPixelXrgb888,
    b: DumbBufferPixelBgra8888,
    color: PremultipliedRgbaColor,
)
    ensures
        DumbBufferPixelXrgb888::of_color(x.color()) == x,
        DumbBufferPixelXrgb888::of_color(color).color() == color,
        DumbBufferPixelBgra8888::of_color(b.color()) == b,
        DumbBufferPixelBgra8888::of_color(color).color() == color,
{
    word_and_bytes_agree(x.0, color.alpha, color.red, color.green, color.blue);
    word_and_bytes_agree(b.0, color.blue, color.green, color.red, color.alpha);
}

/// An opaque color replaces what is below it, and a fully transparent one
/// leaves it as it is.
pub proof fn opaque_replaces_and_transparent_keeps(
    below: PremultipliedRgbaColor,
    color: PremultipliedRgbaColor,
)
    requires
        color.premultiplied(),
    ensures
        color.alpha == 255 ==> below.blended(color) == color,
        color.alpha == 0 ==> below.blended(color) == below,
{
}

/// The same of pixels with five, six and five bits: an opaque color leaves just
/// its highest bits, and a fully transparent one leaves the pixel as it is.
pub proof fn opaque_replaces_and_transparent_keeps_rgb565(
    below: Rgb565Pixel,
    color: PremultipliedRgbaColor,
)
    requires
        color.premultiplied(),
    ensures
        color.alpha == 255 ==> below.blended(color) == Rgb565Pixel::of_fields(
            color.red as int / 8,
            color.green as int / 4,
            color.blue as int / 8,
        ),
        color.alpha == 0 ==> below.blended(color) == below,
{
    let (red, green, blue) = (color.red as int / 8, color.green as int / 4, color.blue as int / 8);
    lemma_field_extremes(below.red_field(), red);
    lemma_field_extremes(below.green_field(), green);
    lemma_field_extremes(below.blue_field(), blue);
    if color.alpha == 255 {
        assert((259 - color.alpha) / 8 == 0);
    }
    if color.alpha == 0 {
        assert((259 - color.alpha) / 8 == 32);
        assert(Rgb565Pixel::of_fields(below.red_field(), below.green_field(), below.blue_field())
            == below);
    }
}

/// A field of which nothing remains, and one with nothing over it.
proof fn lemma_field_extremes(below: int, above: int)
    ensures
        blended_field(below, above, 0) == above,
        blended_field(below, 0, 32) == below,
{
    assert(below * 0 == 0) by (nonlinear_arith);
}

/// Blending a premultiplied color over a premultiplied color gives a
/// premultiplied color: no channel overtakes alpha.
pub proof fn blending_keeps_colors_premultiplied(
    below: PremultipliedRgbaColor,
    color: PremultipliedRgbaColor,
)
    requires
        below.premultiplied(),
        color.premultiplied(),
    ensures
        below.blended(color).premultiplied(),
{
    lemma_channel_stays_below_alpha(below.red, below.alpha, color.red, color.alpha);
    lemma_channel_stays_below_alpha(below.green, below.alpha, color.green, color.alpha);
    lemma_channel_stays_below_alpha(below.blue, below.alpha, color.blue, color.alpha);
}

/// One channel of [`blending_keeps_colors_premultiplied`].
proof fn lemma_channel_stays_below_alpha(below: u8, below_alpha: u8, above: u8, alpha: u8)
    requires
        below <= below_alpha,
        above <= alpha,
    ensures
        0 <= below as int * (255 - alpha) / 255 + above <= below_alpha + alpha - below_alpha as int
            * alpha as int / 255 <= 255,
{
    let scaled = below as int * (255 - alpha);
    let product = below_alpha as int * alpha as int;
    assert(0 <= scaled <= 255 * below_alpha - product) by (nonlinear_arith)
        requires
            scaled == below as int * (255 - alpha),
            product == below_alpha as int * alpha as int,
            below <= below_alpha,
            alpha <= 255,
    ;
    assert(255 * below_alpha + 255 * alpha - product <= 255 * 255) by (nonlinear_arith)
        requires
            product == below_alpha as int * alpha as int,
            below_alpha <= 255,
            alpha <= 255,
    ;
}

/// A word holds its bytes by their places: in the one layout alpha, red, green
/// and blue from the highest down, in the other blue, green, red and alpha.
pub proof fn words_hold_their_channels_by_place(
    x: DumbBufferPixelXrgb888,
    b: DumbBufferPixelBgra8888,
    color: PremultipliedRgbaColor,
)
    ensures
        x.0 == x.color().alpha * 0x100_0000 + x.color().red * 0x1_0000 + x.color().green * 0x100
            + x.color().blue,
        b.0 == b.color().blue * 0x100_0000 + b.color().green * 0x1_0000 + b.color().red * 0x100
            + b.color().alpha,
        DumbBufferPixelXrgb888::of_color(color).0 == color.alpha * 0x100_0000 + color.red * 0x1_0000
            + color.green * 0x100 + color.blue,
        DumbBufferPixelBgra8888::of_color(color).0 == color.blue * 0x100_0000 + color.green
            * 0x1_0000 + color.red * 0x100 + color.alpha,
        forall|word: u32| (#[trigger] DumbBufferPixelXrgb888::of_word(word)).0 == word,
        forall|word: u32| (#[trigger] DumbBufferPixelBgra8888::of_word(word)).0 == word,
        x.word() == x.0,
        b.word() == b.0,
{
    pixel_and_color_agree(x, b, color);
    let (cx, cb) = (x.color(), b.color());
    assert(word_of_bytes(cx.alpha, cx.red, cx.green, cx.blue) == x.0);
    assert(word_of_bytes(cb.blue, cb.green, cb.red, cb.alpha) == b.0);
}

/// An opaque color leaves exactly the word that holds it, whatever was below, and
/// a fully transparent one leaves the word that was there, in both layouts.
pub proof fn an_opaque_color_replaces_the_pixel(
    x: DumbBufferPixelXrgb888,
    b: DumbBufferPixelBgra8888,
    color: PremultipliedRgbaColor,
)
    requires
        color.red <= color.alpha,
        color.green <= color.alpha,
        color.blue <= color.alpha,
    ensures
        color.alpha == 255 ==> x.blended(color).0 == 0xff00_0000 + color.red * 0x1_0000
            + color.green * 0x100 + color.blue,
        color.alpha == 255 ==> b.blended(color).0 == color.blue * 0x100_0000 + color.green
            * 0x1_0000 + color.red * 0x100 + 0xff,
        color.alpha == 0 ==> x.blended(color).0 == x.0,
        color.alpha == 0 ==> b.blended(color).0 == b.0,
{
    opaque_replaces_and_transparent_keeps(x.color(), color);
    opaque_replaces_and_transparent_keeps(b.color(), color);
    pixel_and_color_agree(x, b, color);
    words_hold_their_channels_by_place(x, b, color);
}

/// A pixel that a color was blended over reads back as its old color with that
/// color blended over it, in both layouts.
pub proof fn pixels_blend_as_their_colors(
    x: DumbBufferPixelXrgb888,
    b: DumbBufferPixelBgra8888,
    color: PremultipliedRgbaColor,
)
    ensures
        x.blended(color).color() == x.color().blended(color),
        b.blended(color).color() == b.color().blended(color),
{
    pixel_and_color_agree(x, b, x.color().blended(color));
    pixel_and_color_agree(x, b, b.color().blended(color));
}

/// Blending adds a color to what it lets through of each channel, which is the
/// share that its alpha leaves, rounded down. Of the alphas together goes what both
/// cover, rounded down too.
pub proof fn blending_adds_to_what_is_let_through(
    below: PremultipliedRgbaColor,
    color: PremultipliedRgbaColor,
)
    requires
        color.red <= color.alpha,
        color.green <= color.alpha,
        color.blue <= color.alpha,
    ensures
        ({
            let out = below.blended(color);
            let both = below.alpha + color.alpha - out.alpha;
            let rest = 255 - color.alpha;
            &&& 255 * (out.red - color.red) <= below.red * rest < 255 * (out.red - color.red) + 255
            &&& 255 * (out.green - color.green) <= below.green * rest < 255 * (out.green
                - color.green) + 255
            &&& 255 * (out.blue - color.blue) <= below.blue * rest < 255 * (out.blue - color.blue)
                + 255
            &&& 255 * both <= below.alpha * color.alpha < 255 * both + 255
        }),
{
    lemma_channel_stays_below_alpha(below.red, 255, color.red, color.alpha);
    lemma_channel_stays_below_alpha(below.green, 255, color.green, color.alpha);
    lemma_channel_stays_below_alpha(below.blue, 255, color.blue, color.alpha);
    lemma_channel_stays_below_alpha(0, below.alpha, 0, color.alpha);
    let product = below.alpha as int * color.alpha as int;
    assert(0 <= product <= 255 * below.alpha) by (nonlinear_arith)
        requires
            product == below.alpha as int * color.alpha as int,
            color.alpha <= 255,
            0 <= below.alpha,
    ;
    lemma_division_is_exact(below.red as int * (255 - color.alpha));
    lemma_division_is_exact(below.green as int * (255 - color.alpha));
    lemma_division_is_exact(below.blue as int * (255 - color.alpha));
    lemma_division_is_exact(product);
}

/// A quotient by 255 is off by less than one.
proof fn lemma_division_is_exact(n: int)
    ensures
        255 * (n / 255) <= n < 255 * (n / 255) + 255,
{
}

/// Multiplying red, green and blue by alpha gives a premultiplied color, and one
/// of which a channel exceeds alpha is none.
pub proof fn multiplying_by_alpha_premultiplies(
    red: u8,
    green: u8,
    blue: u8,
    color: PremultipliedRgbaColor,
)
    ensures
        ({
            let scaled = |channel: u8| (channel * color.alpha / 255) as u8;
            PremultipliedRgbaColor {
                red: scaled(red),
                green: scaled(green),
                blue: scaled(blue),
                alpha: color.alpha,
            }.premultiplied()
        }),
        color.red > color.alpha || color.green > color.alpha || color.blue > color.alpha
            ==> !color.premultiplied(),
        color.red <= color.alpha && color.green <= color.alpha && color.blue <= color.alpha
            ==> color.premultiplied(),
{
    let alpha = color.alpha;
    assert(0 <= red * alpha <= 255 * alpha && 0 <= green * alpha <= 255 * alpha && 0 <= blue * alpha
        <= 255 * alpha) by (nonlinear_arith)
        requires
            0 <= red <= 255,
            0 <= green <= 255,
            0 <= blue <= 255,
            0 <= alpha,
    ;
}

/// A pixel of five, six and five bits holds red above green above blue.
pub proof fn half_words_hold_their_fields_by_place(
    pixel: Rgb565Pixel,
    red: int,
    green: int,
    blue: int,
)
    requires
        0 <= red < 32,
        0 <= green < 64,
        0 <= blue < 32,
    ensures
        pixel.0 == pixel.red_field() * 2048 + pixel.green_field() * 32 + pixel.blue_field(),
        0 <= pixel.red_field() < 32,
        0 <= pixel.green_field() < 64,
        0 <= pixel.blue_field() < 32,
        Rgb565Pixel::of_fields(red, green, blue).0 == red * 2048 + green * 32 + blue,
        forall|word: u16| (#[trigger] Rgb565Pixel::of_word(word)).0 == word,
        pixel.word() == pixel.0,
{
    let word = pixel.0 as int;
    vstd::arithmetic::div_mod::lemma_fundamental_div_mod(word, 32);
    vstd::arithmetic::div_mod::lemma_fundamental_div_mod(word / 32, 64);
    vstd::arithmetic::div_mod::lemma_div_denominator(word, 32, 64);
}

/// Blending over a pixel of five, six and five bits adds the highest bits of the
/// color to what it lets through of each field, and no field runs over into the
/// next one. What is let through counts in thirty-seconds, rounded.
pub proof fn blending_over_half_words_keeps_the_fields_apart(
    below: Rgb565Pixel,
    color: PremultipliedRgbaColor,
    through: int,
)
    requires
        color.red <= color.alpha,
        color.green <= color.alpha,
        color.blue <= color.alpha,
        8 * through <= 259 - color.alpha < 8 * through + 8,
    ensures
        ({
            let out = below.blended(color);
            let (red, green, blue) = (color.red / 8, color.green / 4, color.blue / 8);
            let (r, g, b) = (
                out.red_field() - red,
                out.green_field() - green,
                out.blue_field() - blue,
            );
            &&& 32 * r <= below.red_field() * through < 32 * r + 32
            &&& 32 * g <= below.green_field() * through < 32 * g + 32
            &&& 32 * b <= below.blue_field() * through < 32 * b + 32
        }),
{
    let (red, green, blue) = (color.red as int / 8, color.green as int / 4, color.blue as int / 8);
    assert(through == (259 - color.alpha) / 8);
    let (r, g, b) = (
        blended_field(below.red_field(), red, through),
        blended_field(below.green_field(), green, through),
        blended_field(below.blue_field(), blue, through),
    );
    assert(below.blended(color) == Rgb565Pixel::of_fields(r, g, b));
    lemma_field_stays_in_place(below.red_field(), red, through, 31);
    lemma_field_stays_in_place(below.green_field(), green, through, 63);
    lemma_field_stays_in_place(below.blue_field(), blue, through, 31);
    lemma_fields_are_read_back(r, g, b);
}

/// The fields that a pixel was made of are those that it has.
proof fn lemma_fields_are_read_back(red: int, green: int, blue: int)
    requires
        0 <= red < 32,
        0 <= green < 64,
        0 <= blue < 32,
    ensures
        Rgb565Pixel::of_fields(red, green, blue).red_field() == red,
        Rgb565Pixel::of_fields(red, green, blue).green_field() == green,
        Rgb565Pixel::of_fields(red, green, blue).blue_field() == blue,
{
    let word = red * 2048 + green * 32 + blue;
    let upper = red * 64 + green;
    assert(0 <= word < 0x1_0000);
    vstd::arithmetic::div_mod::lemma_fundamental_div_mod_converse(word, 2048, red, green * 32 + blue);
    vstd::arithmetic::div_mod::lemma_fundamental_div_mod_converse(word, 32, upper, blue);
    vstd::arithmetic::div_mod::lemma_fundamental_div_mod_converse(upper, 64, red, green);
}

/// A field of at most `max` stays one under what [`blended_field`] adds to it.
proof fn lemma_field_stays_in_place(below: int, above: int, through: int, max: int)
    requires
        max == 31 || max == 63,
        0 <= below <= max,
        0 <= through <= 32,
        0 <= above,
        max == 31 ==> above + through <= 32 && above <= 31,
        max == 63 ==> above + 2 * through <= 64 && above <= 63,
    ensures
        0 <= blended_field(below, above, through) <= max,
        32 * (blended_field(below, above, through) - above) <= below * through < 32 * (blended_field(
            below,
            above,
            through,
        ) - above) + 32,
{
    let scaled = below * through;
    assert(0 <= scaled <= max * through) by (nonlinear_arith)
        requires
            scaled == below * through,
            0 <= below <= max,
            0 <= through,
    ;
    assert((scaled + above * 32) / 32 == scaled / 32 + above);
    if max == 31 {
        assert(scaled <= 31 * through);
    } else {
        assert(scaled <= 63 * through);
    }
}

} // verus!
