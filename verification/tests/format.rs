use linuxsgc::format::{
    negotiate_format, pixel_layout, software_render_supported_formats, unsupported_format_message,
    unsupported_format_text, Fourcc, PixelLayout, SoftwareFormat,
};

#[test]
fn formats_have_the_codes_of_the_kernel() {
    assert_eq!(SoftwareFormat::Xrgb8888.fourcc(), Fourcc { code: 0x34325258 });
    assert_eq!(SoftwareFormat::Argb8888.fourcc(), Fourcc { code: 0x34325241 });
    assert_eq!(SoftwareFormat::Bgra8888.fourcc(), Fourcc { code: 0x34324142 });
    assert_eq!(SoftwareFormat::Rgb565.fourcc(), Fourcc { code: 0x36314752 });
}

#[test]
fn formats_are_listed_in_order_of_preference() {
    assert_eq!(
        software_render_supported_formats(),
        vec![
            SoftwareFormat::Xrgb8888.fourcc(),
            SoftwareFormat::Argb8888.fourcc(),
            SoftwareFormat::Bgra8888.fourcc(),
            SoftwareFormat::Rgb565.fourcc(),
        ]
    );
}

#[test]
fn the_first_common_format_is_taken() {
    let renderer = software_render_supported_formats();
    let rgb565 = SoftwareFormat::Rgb565.fourcc();
    let argb = SoftwareFormat::Argb8888.fourcc();
    let other = Fourcc { code: 0x34324752 };
    assert_eq!(negotiate_format(&renderer, &[rgb565, other, argb]), Some(argb));
    assert_eq!(negotiate_format(&renderer, &[rgb565]), Some(rgb565));
    assert_eq!(negotiate_format(&renderer, &[other]), None);
    assert_eq!(negotiate_format(&renderer, &[]), None);
    assert_eq!(negotiate_format(&[], &[argb]), None);
}

#[test]
fn every_supported_format_has_a_layout() {
    assert_eq!(pixel_layout(SoftwareFormat::Xrgb8888.fourcc()), Some(PixelLayout::Xrgb8888));
    assert_eq!(pixel_layout(SoftwareFormat::Argb8888.fourcc()), Some(PixelLayout::Xrgb8888));
    assert_eq!(pixel_layout(SoftwareFormat::Bgra8888.fourcc()), Some(PixelLayout::Bgra8888));
    assert_eq!(pixel_layout(SoftwareFormat::Rgb565.fourcc()), Some(PixelLayout::Rgb565));
    assert_eq!(pixel_layout(Fourcc { code: 0x34324752 }), None);
}

#[test]
fn an_unsupported_format_is_named() {
    let rgb888 = Fourcc { code: drm::buffer::DrmFourcc::Rgb888 as u32 };
    assert!(rgb888.is_ascii());
    assert_eq!(
        unsupported_format_message(rgb888),
        "Unsupported frame buffer format RG24 used with software renderer"
    );
    let c8 = Fourcc { code: drm::buffer::DrmFourcc::C8 as u32 };
    assert_eq!(
        unsupported_format_message(c8),
        "Unsupported frame buffer format C8   used with software renderer"
    );
    let unknown = Fourcc { code: 0x31637661 };
    let shown = drm::buffer::DrmFourcc::try_from(unknown.code).unwrap_err().to_string();
    assert_eq!(unsupported_format_message(unknown), unsupported_format_text(&shown));
    assert_eq!(
        unsupported_format_text("C8  "),
        "Unsupported frame buffer format C8   used with software renderer"
    );
}

#[test]
fn a_code_with_other_bytes_is_no_text() {
    assert!(!Fourcc { code: 0x80000000 }.is_ascii());
    assert!(!Fourcc { code: 0x34328058 }.is_ascii());
    assert!(Fourcc { code: 0x34325258 }.is_ascii());
}
