use linuxsgc::rotation::{window_extent, window_rotation, window_to_buffer, RenderingRotation};

const ROTATIONS: [RenderingRotation; 4] = [
    RenderingRotation::NoRotation,
    RenderingRotation::Rotate90,
    RenderingRotation::Rotate180,
    RenderingRotation::Rotate270,
];

#[test]
fn quarter_turn_maps_corners() {
    // The window is five pixels wide and three high.
    let quarter = RenderingRotation::Rotate90;
    assert_eq!(window_to_buffer(quarter, 3, 5, 0, 0), (2, 0));
    assert_eq!(window_to_buffer(quarter, 3, 5, 4, 0), (2, 4));
    assert_eq!(window_to_buffer(quarter, 3, 5, 0, 2), (0, 0));
    assert_eq!(window_to_buffer(quarter, 3, 5, 4, 2), (0, 4));
}

#[test]
fn the_windows_top_left_is_the_screens_top_right() {
    assert_eq!(window_to_buffer(RenderingRotation::Rotate90, 3, 2, 0, 0), (2, 0));
    assert_eq!(window_to_buffer(RenderingRotation::Rotate90, 3, 2, 1, 2), (0, 1));
}

#[test]
fn no_rotation_keeps_positions() {
    assert_eq!(window_to_buffer(RenderingRotation::NoRotation, 3, 5, 1, 4), (1, 4));
}

#[test]
fn half_turn_mirrors_both_axes() {
    assert_eq!(window_to_buffer(RenderingRotation::Rotate180, 3, 5, 0, 1), (2, 3));
}

#[test]
fn three_quarter_turn_maps_corners() {
    let turn = RenderingRotation::Rotate270;
    assert_eq!(window_to_buffer(turn, 3, 5, 0, 0), (0, 4));
    assert_eq!(window_to_buffer(turn, 3, 5, 4, 2), (2, 0));
}

#[test]
fn every_window_pixel_has_its_own_screen_pixel() {
    let (width, height) = (4, 3);
    for rotation in ROTATIONS {
        let (w, h) = window_extent(rotation, width, height);
        let mut seen = vec![false; (width * height) as usize];
        for y in 0..h {
            for x in 0..w {
                let (bx, by) = window_to_buffer(rotation, width, height, x, y);
                assert!(bx >= 0 && bx < width && by >= 0 && by < height);
                let i = (by * width + bx) as usize;
                assert!(!seen[i]);
                seen[i] = true;
            }
        }
        assert!(seen.iter().all(|s| *s));
    }
}

#[test]
fn quarter_turns_add_up_to_a_half_turn() {
    // A window of five by three pixels, turned to three by five, and turned again.
    let (qx, qy) = window_to_buffer(RenderingRotation::Rotate90, 3, 5, 3, 1);
    assert_eq!(
        window_to_buffer(RenderingRotation::Rotate90, 5, 3, qx, qy),
        window_to_buffer(RenderingRotation::Rotate180, 5, 3, 3, 1)
    );
    assert_eq!(window_to_buffer(RenderingRotation::Rotate270, 5, 3, qx, qy), (3, 1));
}

#[test]
fn quarter_turns_exchange_the_extent() {
    assert_eq!(window_extent(RenderingRotation::NoRotation, 800, 480), (800, 480));
    assert_eq!(window_extent(RenderingRotation::Rotate90, 800, 480), (480, 800));
    assert_eq!(window_extent(RenderingRotation::Rotate180, 800, 480), (800, 480));
    assert_eq!(window_extent(RenderingRotation::Rotate270, 800, 480), (480, 800));
}

#[test]
fn rotations_are_set_in_degrees() {
    let of = |degrees: &str| RenderingRotation::from_degrees(&degrees.to_string());
    assert_eq!(of("0"), Some(RenderingRotation::NoRotation));
    assert_eq!(of("90"), Some(RenderingRotation::Rotate90));
    assert_eq!(of("180"), Some(RenderingRotation::Rotate180));
    assert_eq!(of("270"), Some(RenderingRotation::Rotate270));
    assert_eq!(of("45"), None);
    assert_eq!(of(""), None);
}

#[test]
fn the_window_is_not_rotated_unless_set() {
    assert_eq!(window_rotation(None), Ok(RenderingRotation::NoRotation));
    assert_eq!(
        window_rotation(Some(Ok(RenderingRotation::Rotate270))),
        Ok(RenderingRotation::Rotate270)
    );
    assert_eq!(
        window_rotation(Some(Err("bad".to_string()))),
        Err("Failed to parse SLINT_KMS_ROTATION: bad".to_string())
    );
    assert_eq!(RenderingRotation::default(), RenderingRotation::NoRotation);
}
