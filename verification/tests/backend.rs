use linuxsgc::backend::{Backend, BackendBuilder};
use linuxsgc::clipboard::{Clipboard, Clipboards};
use linuxsgc::injected;
use linuxsgc::injected::DeviceSource;
use linuxsgc::renderer::{RendererChoice, RendererFeatures, RendererKind};
use linuxsgc::sgc::{Resource, SgcSession};

const BOTH: RendererFeatures = RendererFeatures { femtovg: true, software: true };

fn session() -> SgcSession {
    SgcSession::connect_and_acquire(&[Resource::Drm { card: 3 }], Ok(()), true, &[]).unwrap()
}

type Built = Backend<&'static str, (), u8, char>;

#[test]
fn a_backend_renders_on_its_lease() {
    let backend: Built = BackendBuilder::default()
        .with_renderer_name("software".to_string())
        .request_graphics_api(2u8)
        .with_libinput_event_hook('h')
        .build(BOTH, true, Ok((session(), Ok("lease"))))
        .ok()
        .unwrap();
    assert_eq!(backend.renderer, RendererChoice::Only(RendererKind::Software));
    assert_eq!(backend.requested_graphics_api, Some(2));
    assert_eq!(backend.libinput_event_hook, Some('h'));
    assert_eq!(backend.shared.device_accessor(b"/dev/dri/card3"), Ok(&"lease"));
    assert!(backend.shared.device_accessor(b"/dev/dri/card0").is_err());
    assert!(!backend.shared.is_suspended());
    assert_eq!(backend.session, session());
    assert!(backend.event_loop.receiver);
}

#[test]
fn without_a_session_there_is_no_backend() {
    let failed: Result<Built, String> =
        BackendBuilder::default().build(BOTH, true, Err("no daemon".to_string()));
    assert_eq!(failed.err(), Some("no daemon".to_string()));
    let not_held = Ok((session(), Err("not held".to_string())));
    let failed: Result<Built, String> = Backend::build(BackendBuilder::default(), BOTH, true, not_held);
    assert_eq!(failed.err(), Some("sgc: not held".to_string()));
}

#[test]
fn clipboards_give_back_what_was_put_in() {
    let mut clipboards = Clipboards::new();
    assert_eq!(clipboards.clipboard_text(Clipboard::DefaultClipboard), None);
    clipboards.set_clipboard_text("copied", Clipboard::DefaultClipboard);
    clipboards.set_clipboard_text("selected", Clipboard::SelectionClipboard);
    clipboards.set_clipboard_text("lost", Clipboard::Other);
    assert_eq!(
        clipboards.clipboard_text(Clipboard::DefaultClipboard),
        Some("copied".to_string())
    );
    assert_eq!(
        clipboards.clipboard_text(Clipboard::SelectionClipboard),
        Some("selected".to_string())
    );
    assert_eq!(clipboards.clipboard_text(Clipboard::Other), None);
    clipboards.set_clipboard_text("", Clipboard::DefaultClipboard);
    assert_eq!(clipboards.clipboard_text(Clipboard::DefaultClipboard), Some(String::new()));
}

type Injected = injected::Backend<&'static str, u8, (), u8, char>;

fn with_descriptor(drm_fd: Option<(u8, &'static str)>) -> Injected {
    Injected::build(BackendBuilder::default(), BOTH, drm_fd)
}

#[test]
fn an_injected_descriptor_is_the_only_device() {
    let mut backend = with_descriptor(Some((1, "first")));
    assert!(matches!(
        backend.device_accessor().open(b"/dev/dri/card1"),
        Ok(DeviceSource::Injected(&"first"))
    ));
    match backend.device_accessor().open(b"/dev/dri/card0") {
        Err(err) => assert_eq!(
            err.message(),
            "Refusing to open /dev/dri/card0: rendering on the injected DRM fd for card1"
        ),
        Ok(_) => panic!("another card was opened"),
    }
    backend.set_drm_fd(0, "second");
    assert!(matches!(
        backend.device_accessor().open(b"/dev/dri/card0"),
        Ok(DeviceSource::Injected(&"second"))
    ));
}

#[test]
fn without_a_descriptor_devices_are_opened_directly() {
    let backend = with_descriptor(None);
    assert!(matches!(
        backend.device_accessor().open(b"/dev/dri/card0"),
        Ok(DeviceSource::OpenDirectly)
    ));
    assert_eq!(injected::opened_directly(b"/dev/x", Ok(5)), Ok(5));
    let failed = injected::opened_directly::<u8>(b"/dev/x", Err("EACCES".to_string()));
    assert_eq!(failed.unwrap_err().message(), "Error opening device /dev/x: EACCES");
}

#[test]
fn there_is_nothing_to_rebuild_before_the_window() {
    let builder = BackendBuilder::default()
        .with_renderer_name("femtovg".to_string())
        .request_graphics_api(1)
        .with_libinput_event_hook('h');
    let mut backend = Injected::build(builder, BOTH, Some((1, "fd")));
    assert_eq!(backend.renderer, RendererChoice::Only(RendererKind::FemtoVG));
    assert_eq!(backend.requested_graphics_api, Some(1));
    assert_eq!(backend.libinput_event_hook, Some('h'));
    assert_eq!(
        backend.rebuild_renderer().err(),
        Some("rebuild_renderer: no window adapter yet".to_string())
    );
    backend.window_created();
    assert!(backend.rebuild_renderer().is_ok());
    backend.set_suspended(true);
    assert!(backend.suspended);
    backend.set_suspended(false);
    assert!(!backend.suspended);
}

#[test]
fn hooks_are_run_once_and_in_order() {
    let mut backend = with_descriptor(None);
    backend.add_event_loop_hook(1);
    backend.add_event_loop_hook(2);
    assert_eq!(backend.take_event_loop_hooks(), vec![1, 2]);
    assert_eq!(backend.take_event_loop_hooks(), vec![]);
    assert_eq!(injected::LoopData::default(), injected::LoopData {});
}
