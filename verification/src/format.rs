//! Frame-buffer formats: which ones the software renderer draws in, and the one
//! that it and the display agree on.

use vstd::prelude::*;

verus! {

/// A DRM format code: four characters, the first in the lowest byte.
#[derive(Clone, Copy, PartialEq, Eq, Structural, Debug)]
pub struct Fourcc {
    pub code: u32,
}

impl Fourcc {
    /// The code is made of ASCII characters.
    pub open spec fn ascii(self) -> bool {
        &&& self.code % 0x100 < 0x80
        &&& self.code / 0x100 % 0x100 < 0x80
        &&& self.code / 0x1_0000 % 0x100 < 0x80
        &&& self.code / 0x100_0000 < 0x80
    }

    /// Whether the code is made of ASCII characters.
    pub fn is_ascii(&self) -> (b: bool)
        ensures
            b == self.ascii(),
    {
        self.code % 0x100 < 0x80 && self.code / 0x100 % 0x100 < 0x80 && self.code / 0x1_0000 % 0x100
            < 0x80 && self.code / 0x100_0000 < 0x80
    }
}

/// A format that the software renderer can draw in.
#[derive(Clone, Copy, PartialEq, Eq, Structural, Debug)]
pub enum SoftwareFormat {
    Xrgb8888,
    Argb8888,
    Bgra8888,
    Rgb565,
}

/// How the pixels of a frame buffer are laid out.
#[derive(Clone, Copy, PartialEq, Eq, Structural, Debug)]
pub enum PixelLayout {
    /// Words of [`crate::pixel::DumbBufferPixelXrgb888`].
    Xrgb8888,
    /// Words of [`crate::pixel::DumbBufferPixelBgra8888`].
    Bgra8888,
    /// Half words of [`crate::pixel::Rgb565Pixel`].
    Rgb565,
}

/// The code made of four characters.
pub open spec fn fourcc(a: char, b: char, c: char, d: char) -> Fourcc {
    Fourcc { code: (a as int + b as int * 0x100 + c as int * 0x1_0000 + d as int * 0x100_0000) as u32 }
}

impl SoftwareFormat {
    /// The format's code.
    pub open spec fn code(self) -> Fourcc {
        match self {
            SoftwareFormat::Xrgb8888 => fourcc('X', 'R', '2', '4'),
            SoftwareFormat::Argb8888 => fourcc('A', 'R', '2', '4'),
            SoftwareFormat::Bgra8888 => fourcc('B', 'A', '2', '4'),
            SoftwareFormat::Rgb565 => fourcc('R', 'G', '1', '6'),
        }
    }

    /// The layout of the format's pixels. The alpha byte is kept either way.
    pub open spec fn layout(self) -> PixelLayout {
        match self {
            SoftwareFormat::Xrgb8888 | SoftwareFormat::Argb8888 => PixelLayout::Xrgb8888,
            SoftwareFormat::Bgra8888 => PixelLayout::Bgra8888,
            SoftwareFormat::Rgb565 => PixelLayout::Rgb565,
        }
    }
}

/// The formats that the software renderer supports, the preferred ones first.
pub open spec fn software_formats() -> Seq<Fourcc> {
    seq![
        SoftwareFormat::Xrgb8888.code(),
        SoftwareFormat::Argb8888.code(),
        SoftwareFormat::Bgra8888.code(),
        SoftwareFormat::Rgb565.code(),
    ]
}

/// The layout that the software renderer draws `format` in, if it can.
pub open spec fn layout_of(format: Fourcc) -> Option<PixelLayout> {
    if format == SoftwareFormat::Xrgb8888.code() || format == SoftwareFormat::Argb8888.code() {
        Some(PixelLayout::Xrgb8888)
    } else if format == SoftwareFormat::Bgra8888.code() {
        Some(PixelLayout::Bgra8888)
    } else if format == SoftwareFormat::Rgb565.code() {
        Some(PixelLayout::Rgb565)
    } else {
        None
    }
}

/// The discriminants of `drm::buffer::DrmFourcc`: each is the code of its
/// variant, made of the four characters that the kernel gave the format.
#[verifier::external_body]
fn drm_code(format: SoftwareFormat) -> (code: u32)
    ensures
        code == format.code().code,
{
    match format {
        SoftwareFormat::Xrgb8888 => drm::buffer::DrmFourcc::Xrgb8888 as u32,
        SoftwareFormat::Argb8888 => drm::buffer::DrmFourcc::Argb8888 as u32,
        SoftwareFormat::Bgra8888 => drm::buffer::DrmFourcc::Bgra8888 as u32,
        SoftwareFormat::Rgb565 => drm::buffer::DrmFourcc::Rgb565 as u32,
    }
}

/// The characters of a code, the first in the lowest byte. A code of fewer than
/// four is filled up with zeros, which stand for spaces.
pub open spec fn fourcc_characters(code: u32) -> Seq<char> {
    let tail = |byte: u32|
        if byte == 0 {
            ' '
        } else {
            byte as char
        };
    seq![
        (code % 0x100) as char,
        (code / 0x100 % 0x100) as char,
        tail(code / 0x1_0000 % 0x100),
        tail(code / 0x100_0000),
    ]
}

/// `drm::buffer::DrmFourcc::try_from` knows the code.
pub uninterp spec fn known_fourcc(code: u32) -> bool;

/// The text of the error for a code that is not known.
pub uninterp spec fn unknown_fourcc_text(code: u32) -> Seq<char>;

/// What is displayed for a code: its characters, or an error if it is not known.
pub open spec fn fourcc_text(code: u32) -> Seq<char> {
    if known_fourcc(code) {
        fourcc_characters(code)
    } else {
        unknown_fourcc_text(code)
    }
}

/// `DrmFourcc::try_from` and the `Display` of what it returns. A format that it
/// knows is displayed by the four characters of its code, with a space for each
/// zero among the last two. Which codes it knows, and what the error for another
/// one reads, is only named: the code alone decides both. Codes that are no ASCII
/// text are left out, as displaying some of them panics.
#[verifier::external_body]
fn display_fourcc(code: u32) -> (text: Result<String, String>)
    requires
        (Fourcc { code }).ascii(),
    ensures
        match text {
            Ok(text) => known_fourcc(code) && text@ == fourcc_characters(code),
            Err(text) => !known_fourcc(code) && text@ == unknown_fourcc_text(code),
        },
{
    match drm::buffer::DrmFourcc::try_from(code) {
        Ok(format) => Ok(format.to_string()),
        Err(unknown) => Err(unknown.to_string()),
    }
}

impl SoftwareFormat {
    /// The format's DRM code.
    pub fn fourcc(self) -> (code: Fourcc)
        ensures
            code == self.code(),
    {
        Fourcc { code: drm_code(self) }
    }
}

/// The formats that the software renderer asks a display for, in order of
/// preference.
pub fn software_render_supported_formats() -> (formats: Vec<Fourcc>)
    ensures
        formats@ == software_formats(),
{
    let mut formats: Vec<Fourcc> = Vec::new();
    formats.push(SoftwareFormat::Xrgb8888.fourcc());
    formats.push(SoftwareFormat::Argb8888.fourcc());
    formats.push(SoftwareFormat::Bgra8888.fourcc());
    formats.push(SoftwareFormat::Rgb565.fourcc());
    assert(formats@ =~= software_formats());
    formats
}

/// The layout to draw a frame buffer of `format` in, or `None` where the
/// software renderer does not support it.
pub fn pixel_layout(format: Fourcc) -> (layout: Option<PixelLayout>)
    ensures
        layout == layout_of(format),
{
    if format == SoftwareFormat::Xrgb8888.fourcc() || format == SoftwareFormat::Argb8888.fourcc() {
        Some(PixelLayout::Xrgb8888)
    } else if format == SoftwareFormat::Bgra8888.fourcc() {
        Some(PixelLayout::Bgra8888)
    } else if format == SoftwareFormat::Rgb565.fourcc() {
        Some(PixelLayout::Rgb565)
    } else {
        None
    }
}

/// The format to draw in: the first of the renderer's formats that the display
/// supports too.
pub fn negotiate_format(renderer_formats: &[Fourcc], display_formats: &[Fourcc]) -> (agreed: Option<
    Fourcc,
>)
    ensures
        match agreed {
            Some(format) => exists|i: int|
                {
                    &&& 0 <= i < renderer_formats@.len()
                    &&& #[trigger] renderer_formats@[i] == format
                    &&& display_formats@.contains(format)
                    &&& forall|j: int|
                        0 <= j < i ==> !display_formats@.contains(#[trigger] renderer_formats@[j])
                },
            None => forall|j: int|
                0 <= j < renderer_formats@.len() ==> !display_formats@.contains(
                    #[trigger] renderer_formats@[j],
                ),
        },
{
    let mut i: usize = 0;
    while i < renderer_formats.len()
        invariant
            0 <= i <= renderer_formats@.len(),
            forall|j: int|
                0 <= j < i ==> !display_formats@.contains(#[trigger] renderer_formats@[j]),
        decreases renderer_formats@.len() - i,
    {
        let format: Fourcc = renderer_formats[i];
        let mut k: usize = 0;
        while k < display_formats.len()
            invariant
                0 <= k <= display_formats@.len(),
                0 <= i < renderer_formats@.len(),
                format == renderer_formats@[i as int],
                forall|j: int|
                    0 <= j < i ==> !display_formats@.contains(#[trigger] renderer_formats@[j]),
                forall|j: int| 0 <= j < k ==> #[trigger] display_formats@[j] != format,
            decreases display_formats@.len() - k,
        {
            if display_formats[k] == format {
                assert(display_formats@[k as int] == format);
                return Some(format);
            }
            k += 1;
        }
        i += 1;
    }
    None
}

/// What is said of a frame buffer whose format the software renderer does not
/// support.
pub fn unsupported_format_message(format: Fourcc) -> (message: String)
    requires
        format.ascii(),
    ensures
        message@ == "Unsupported frame buffer format "@ + fourcc_text(format.code)
            + " used with software renderer"@,
{
    match display_fourcc(format.code) {
        Ok(text) => unsupported_format_text(text.as_str()),
        Err(text) => unsupported_format_text(text.as_str()),
    }
}

/// The message for a format that is displayed as `format`.
pub fn unsupported_format_text(format: &str) -> (message: String)
    ensures
        message@ == "Unsupported frame buffer format "@ + format@
            + " used with software renderer"@,
{
    let mut message = String::new();
    message.append("Unsupported frame buffer format ");
    message.append(format);
    message.append(" used with software renderer");
    assert(message@ =~= "Unsupported frame buffer format "@ + format@
        + " used with software renderer"@);
    message
}

/// The software renderer has a layout for each format that it asks for, and for
/// no other.
pub proof fn supported_formats_have_a_layout(format: Fourcc)
    ensures
        software_formats().contains(format) <==> layout_of(format) is Some,
{
    let formats = software_formats();
    assert(formats[0] == SoftwareFormat::Xrgb8888.code());
    assert(formats[1] == SoftwareFormat::Argb8888.code());
    assert(formats[2] == SoftwareFormat::Bgra8888.code());
    assert(formats[3] == SoftwareFormat::Rgb565.code());
    if formats.contains(format) {
        let i = choose|i: int| 0 <= i < formats.len() && formats[i] == format;
        assert(i == 0 || i == 1 || i == 2 || i == 3);
    }
}

/// A format that the software renderer and a display agree on is one that the
/// renderer can draw in.
pub proof fn an_agreed_format_can_be_drawn(agreed: Fourcc, i: int)
    requires
        0 <= i < software_formats().len(),
        software_formats()[i] == agreed,
    ensures
        layout_of(agreed) is Some,
{
    assert(software_formats().contains(agreed));
    supported_formats_have_a_layout(agreed);
}

/// The software renderer asks for four formats, by the codes that the kernel gave
/// them, in this order of preference.
pub proof fn four_formats_are_asked_for()
    ensures
        software_formats() == seq![
            Fourcc { code: 0x3432_5258 },
            Fourcc { code: 0x3432_5241 },
            Fourcc { code: 0x3432_4142 },
            Fourcc { code: 0x3631_4752 },
        ],
        SoftwareFormat::Xrgb8888.code().code == 0x3432_5258,
        SoftwareFormat::Argb8888.code().code == 0x3432_5241,
        SoftwareFormat::Bgra8888.code().code == 0x3432_4142,
        SoftwareFormat::Rgb565.code().code == 0x3631_4752,
{
}

/// Each format is drawn in its own layout, the one with alpha like the one without,
/// and a format of any other code in none.
pub proof fn each_format_has_its_layout(format: Fourcc)
    ensures
        layout_of(format) == Some(PixelLayout::Xrgb8888) <==> format.code == 0x3432_5258
            || format.code == 0x3432_5241,
        layout_of(format) == Some(PixelLayout::Bgra8888) <==> format.code == 0x3432_4142,
        layout_of(format) == Some(PixelLayout::Rgb565) <==> format.code == 0x3631_4752,
        layout_of(format) is None <==> format.code != 0x3432_5258 && format.code != 0x3432_5241
            && format.code != 0x3432_4142 && format.code != 0x3631_4752,
        layout_of(SoftwareFormat::Xrgb8888.code()) == Some(SoftwareFormat::Xrgb8888.layout()),
        layout_of(SoftwareFormat::Argb8888.code()) == Some(SoftwareFormat::Argb8888.layout()),
        layout_of(SoftwareFormat::Bgra8888.code()) == Some(SoftwareFormat::Bgra8888.layout()),
        layout_of(SoftwareFormat::Rgb565.code()) == Some(SoftwareFormat::Rgb565.layout()),
{
}

/// A code that was made of four ASCII characters is shown by just these, the first
/// one first, and is an ASCII code.
pub proof fn codes_are_shown_by_their_characters(a: char, b: char, c: char, d: char)
    requires
        a as u32 <= 0x7f,
        b as u32 <= 0x7f,
        0 < c as u32 <= 0x7f,
        0 < d as u32 <= 0x7f,
    ensures
        fourcc_characters(fourcc(a, b, c, d).code) == seq![a, b, c, d],
        fourcc(a, b, c, d).code == a as int + 0x100 * (b as int) + 0x1_0000 * (c as int)
            + 0x100_0000 * (d as int),
        fourcc(a, b, c, d).ascii(),
{
    let code = fourcc(a, b, c, d).code;
    let (x, y, z, w) = (a as u32, b as u32, c as u32, d as u32);
    assert(code == x + y * 0x100 + z * 0x1_0000 + w * 0x100_0000);
    assert(code % 0x100 == x && code / 0x100 % 0x100 == y && code / 0x1_0000 % 0x100 == z && code
        / 0x100_0000 == w);
    assert(fourcc_characters(code) =~= seq![a, b, c, d]);
}

/// A code is ASCII exactly if none of its bytes has the highest bit.
pub proof fn ascii_codes_have_no_high_bits(format: Fourcc)
    ensures
        format.ascii() <==> format.code & 0x8080_8080 == 0,
{
    let code = format.code;
    assert((code & 0x8080_8080 == 0) <==> (code % 0x100 < 0x80 && code / 0x100 % 0x100 < 0x80 && code
        / 0x1_0000 % 0x100 < 0x80 && code / 0x100_0000 < 0x80)) by (bit_vector);
}

/// A known code is shown by its four characters, byte by byte from the lowest, with
/// a space for each of the last two that is missing; any other code is shown as an
/// error.
pub proof fn known_codes_are_shown_byte_by_byte(code: u32)
    ensures
        ({
            let shown = fourcc_characters(code);
            &&& shown.len() == 4
            &&& shown[0] as u32 == code % 0x100
            &&& shown[1] as u32 == code / 0x100 % 0x100
            &&& code / 0x1_0000 % 0x100 != 0 ==> shown[2] as u32 == code / 0x1_0000 % 0x100
            &&& code / 0x1_0000 % 0x100 == 0 ==> shown[2] == ' '
            &&& code / 0x100_0000 != 0 ==> shown[3] as u32 == code / 0x100_0000
            &&& code / 0x100_0000 == 0 ==> shown[3] == ' '
        }),
        known_fourcc(code) ==> fourcc_text(code) == fourcc_characters(code),
        !known_fourcc(code) ==> fourcc_text(code) == unknown_fourcc_text(code),
{
}

} // verus!
