use linuxsgc::registry::{device_path, InputState, ReadyDevice, Skipped};
use linuxsgc::sgc::{InputResource, Resource};

const MOUSE: Resource = Resource::Input(InputResource::Mouse(0));
const KEYBOARD: Resource = Resource::Input(InputResource::Keyboard(0));

type State = InputState<&'static str, u32>;

fn ready(resource: Resource, fd: &'static str, path: &[u8]) -> ReadyDevice<&'static str> {
    ReadyDevice { resource, fd, path: path.to_vec(), flags: Ok(()) }
}

fn seeded() -> State {
    let mut state = State::new();
    state.seed_from_session(vec![
        ready(MOUSE, "mouse", b"/dev/input/event0"),
        ready(KEYBOARD, "keyboard", b"/dev/input/event1"),
    ]);
    state
}

fn pending(state: &State) -> Vec<(Vec<u8>, Resource)> {
    state.registry.pending_devices().into_iter().map(|d| (d.path, d.resource)).collect()
}

#[test]
fn only_absolute_paths_are_devices() {
    assert_eq!(device_path(Some(b"/dev/input/event3".to_vec())), Ok(b"/dev/input/event3".to_vec()));
    assert_eq!(device_path(Some(b"anon_inode:x".to_vec())), Err(Skipped::NotAbsolute));
    assert_eq!(device_path(Some(vec![])), Err(Skipped::NotAbsolute));
    assert_eq!(device_path(None), Err(Skipped::Unresolved));
}

#[test]
fn a_granted_device_is_opened_on_its_descriptor() {
    let state = seeded();
    assert_eq!(state.registry.open_restricted(b"/dev/input/event1"), Ok(&"keyboard"));
    assert_eq!(state.registry.find_fd(b"/dev/input/event0"), Some(&"mouse"));
}

#[test]
fn a_device_that_was_never_granted_is_refused() {
    let state = seeded();
    let errno = nix::errno::Errno::ENOENT as i32;
    assert_eq!(state.registry.open_restricted(b"/dev/input/event2"), Err(errno));
    assert_eq!(state.registry.open_restricted(b"/dev/input/event"), Err(2));
    assert_eq!(state.registry.find_fd(b""), None);
}

#[test]
fn a_second_device_with_a_path_is_passed_over() {
    let mut state = seeded();
    let path = b"/dev/input/event0".to_vec();
    assert_eq!(
        state.registry.add_granted(KEYBOARD, "again", path, Ok(())),
        Err(Skipped::Duplicate)
    );
    assert_eq!(state.registry.find_fd(b"/dev/input/event0"), Some(&"mouse"));
}

#[test]
fn a_device_whose_flags_cannot_be_set_is_passed_over() {
    let mut state = seeded();
    let path = b"/dev/input/event2".to_vec();
    assert_eq!(
        state.registry.add_granted(KEYBOARD, "third", path, Err(9)),
        Err(Skipped::Flags(9))
    );
    assert_eq!(state.registry.find_fd(b"/dev/input/event2"), None);
}

#[test]
fn pending_devices_are_added() {
    let mut state = seeded();
    let asked = state.devices_to_add();
    assert_eq!(asked[0].path_text(), Some("/dev/input/event0"));
    assert_eq!(asked.len(), 2);
    let outcome = state.add_pending_devices(&asked, vec![Some(10), Some(11)]);
    assert_eq!(outcome.added, 2);
    assert!(outcome.orphans.is_empty());
    assert!(pending(&state).is_empty());
    assert!(state.devices_to_add().is_empty());
}

#[test]
fn a_rejected_device_stays_registered() {
    let mut state = seeded();
    let asked = state.devices_to_add();
    let outcome = state.add_pending_devices(&asked, vec![None, Some(11)]);
    assert_eq!(outcome.added, 1);
    assert_eq!(pending(&state), vec![(b"/dev/input/event0".to_vec(), MOUSE)]);
    assert_eq!(state.registry.find_fd(b"/dev/input/event0"), Some(&"mouse"));
}

#[test]
fn a_device_that_is_revoked_meanwhile_is_handed_back() {
    let mut state = seeded();
    let asked = state.devices_to_add();
    assert_eq!(state.on_revoked(MOUSE), vec![]);
    let outcome = state.add_pending_devices(&asked, vec![Some(10), Some(11)]);
    assert_eq!(outcome.added, 1);
    assert_eq!(outcome.orphans, vec![10]);
}

#[test]
fn a_handle_without_an_entry_comes_back() {
    let mut state = seeded();
    assert_eq!(state.registry.attach_device(b"/dev/input/event0", 5), None);
    assert_eq!(state.registry.attach_device(b"/dev/input/event9", 6), Some(6));
}

#[test]
fn a_revoked_device_is_dropped() {
    let mut state = seeded();
    let asked = state.devices_to_add();
    state.add_pending_devices(&asked, vec![Some(10), Some(11)]);
    assert_eq!(state.on_revoked(MOUSE), vec![10]);
    assert_eq!(state.registry.find_fd(b"/dev/input/event0"), None);
    assert_eq!(state.registry.find_fd(b"/dev/input/event1"), Some(&"keyboard"));
    let path = b"/dev/input/event0".to_vec();
    assert_eq!(state.registry.add_granted(MOUSE, "back", path, Ok(())), Ok(()));
    assert_eq!(state.registry.find_fd(b"/dev/input/event0"), Some(&"back"));
}

#[test]
fn a_path_that_is_no_text_is_not_handed_over() {
    let mut state = State::new();
    state.seed_from_session(vec![
        ready(MOUSE, "mouse", b"/dev/\xff"),
        ready(KEYBOARD, "keyboard", b"/dev/input/event1"),
        ReadyDevice {
            resource: KEYBOARD,
            fd: "broken",
            path: b"/dev/input/event2".to_vec(),
            flags: Err(1),
        },
    ]);
    assert_eq!(pending(&state).len(), 2);
    let asked = state.devices_to_add();
    assert_eq!(asked.len(), 1);
    assert_eq!(asked[0].path_text(), Some("/dev/input/event1"));
    assert_eq!(state.registry.pending_devices()[0].path_text(), None);
}

#[test]
fn paths_are_compared_by_component() {
    let mut state = seeded();
    assert_eq!(state.registry.open_restricted(b"/dev//input/./event0"), Ok(&"mouse"));
    assert_eq!(state.registry.open_restricted(b"//dev/input/event1/"), Ok(&"keyboard"));
    assert_eq!(state.registry.open_restricted(b"dev/input/event1"), Err(2));
    assert_eq!(
        state.registry.add_granted(MOUSE, "again", b"/dev/input//event0".to_vec(), Ok(())),
        Err(Skipped::Duplicate)
    );
    assert_eq!(state.registry.attach_device(b"/dev/./input/event0", 5), None);
    assert_eq!(pending(&state), vec![(b"/dev/input/event1".to_vec(), KEYBOARD)]);
}

#[test]
fn seeding_says_what_was_passed_over() {
    let mut state = State::new();
    let broken = ReadyDevice {
        resource: KEYBOARD,
        fd: "broken",
        path: b"/dev/input/event2".to_vec(),
        flags: Err(9),
    };
    let skipped = state.seed_from_session(vec![
        ready(MOUSE, "mouse", b"/dev/input/event0"),
        broken,
        ready(KEYBOARD, "again", b"/dev/input/event0"),
    ]);
    assert_eq!(skipped, vec![None, Some(Skipped::Flags(9)), Some(Skipped::Duplicate)]);
}
