use linuxsgc::renderer::{
    next_renderer, presents, renderer_choice, try_femtovg_then_software, DrawOutcome,
    FemtoVGRendererAdapter, PhysicalSize, RendererAttempt, RendererChoice, RendererFeatures,
    RendererKind, SoftwareRendererAdapter,
};

const BOTH: RendererFeatures = RendererFeatures { femtovg: true, software: true };
const SOFTWARE: RendererFeatures = RendererFeatures { femtovg: false, software: true };
const FEMTOVG: RendererFeatures = RendererFeatures { femtovg: true, software: false };
const NONE: RendererFeatures = RendererFeatures { femtovg: false, software: false };

fn choice(name: &str, features: RendererFeatures) -> RendererChoice {
    renderer_choice(Some(&name.to_string()), features)
}

#[test]
fn a_renderer_is_chosen_by_name() {
    assert_eq!(choice("femtovg", BOTH), RendererChoice::Only(RendererKind::FemtoVG));
    assert_eq!(choice("software", BOTH), RendererChoice::Only(RendererKind::Software));
    assert_eq!(choice("skia", BOTH), RendererChoice::FirstThatWorks);
    assert_eq!(choice("femtovg", SOFTWARE), RendererChoice::FirstThatWorks);
    assert_eq!(choice("software", FEMTOVG), RendererChoice::FirstThatWorks);
    assert_eq!(renderer_choice(None, BOTH), RendererChoice::FirstThatWorks);
}

#[test]
fn femtovg_is_tried_before_software() {
    assert_eq!(
        try_femtovg_then_software(BOTH, &[]),
        RendererAttempt::Try(RendererKind::FemtoVG)
    );
    assert_eq!(
        try_femtovg_then_software(BOTH, &["no gl".to_string()]),
        RendererAttempt::Try(RendererKind::Software)
    );
    assert_eq!(
        try_femtovg_then_software(SOFTWARE, &[]),
        RendererAttempt::Try(RendererKind::Software)
    );
}

#[test]
fn all_failures_are_reported() {
    assert_eq!(
        try_femtovg_then_software(BOTH, &["no gl".to_string(), "no card".to_string()]),
        RendererAttempt::GiveUp(
            "Could not initialize any renderer for the LinuxSGC backend.\n\
             Error from FemtoVG renderer: no gl\n\
             Error from Software renderer: no card\n\
             No renderers configured."
                .to_string()
        )
    );
    assert_eq!(
        try_femtovg_then_software(NONE, &[]),
        RendererAttempt::GiveUp(
            "Could not initialize any renderer for the LinuxSGC backend.\nNo renderers configured."
                .to_string()
        )
    );
}

#[test]
fn a_renderer_that_was_asked_for_is_tried_alone() {
    let only = RendererChoice::Only(RendererKind::FemtoVG);
    assert_eq!(next_renderer(only, BOTH, &[]), RendererAttempt::Try(RendererKind::FemtoVG));
    assert_eq!(
        next_renderer(only, BOTH, &["no gl".to_string()]),
        RendererAttempt::GiveUp("no gl".to_string())
    );
    assert_eq!(
        next_renderer(RendererChoice::FirstThatWorks, FEMTOVG, &[]),
        RendererAttempt::Try(RendererKind::FemtoVG)
    );
}

#[test]
fn only_a_complete_frame_is_presented() {
    assert!(presents(DrawOutcome::Success));
    assert!(!presents(DrawOutcome::Occluded));
    assert!(!presents(DrawOutcome::Timeout));
}

#[test]
fn the_software_renderer_moves_to_the_new_display() {
    let size = PhysicalSize { width: 800, height: 480 };
    let mut adapter = SoftwareRendererAdapter::new(Ok(("first", size))).unwrap();
    assert_eq!(adapter.current_display(), &"first");
    assert_eq!(adapter.size(), size);
    assert_eq!(adapter.rebuild(Err("gone".to_string())), Err("gone".to_string()));
    assert_eq!(adapter.current_display(), &"first");
    let larger = PhysicalSize { width: 1920, height: 1080 };
    assert_eq!(adapter.rebuild(Ok(("second", larger))), Ok(()));
    assert_eq!(adapter.current_display(), &"second");
    assert_eq!(adapter.size(), larger);
    let failed = SoftwareRendererAdapter::<&str>::new(Err("no card".to_string()));
    assert_eq!(failed.err(), Some("no card".to_string()));
}

#[test]
fn the_gl_renderer_moves_to_the_new_display() {
    let size = PhysicalSize { width: 800, height: 480 };
    let mut adapter = FemtoVGRendererAdapter::new("first", size);
    assert_eq!(adapter.rebuild(Err("no egl".to_string())), Err("no egl".to_string()));
    assert_eq!(adapter.current_display(), &"first");
    let larger = PhysicalSize { width: 1920, height: 1080 };
    assert_eq!(adapter.rebuild(Ok(("second", larger))), Ok(()));
    assert_eq!(adapter.current_display(), &"second");
    assert_eq!(adapter.size(), larger);
}
