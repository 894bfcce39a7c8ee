use linuxsgc::path::{file_name, is_absolute, is_card, is_same_path};

const PATHS: [&str; 31] = [
    "", "/", "//", ".", "./", "..", "../", "a", "a/", "a//", "/a", "/a/b", "a/.", "a/./", "a/./.",
    "/.", "/./", "a/..", "a/../", "/dev/dri/card0", "dev//dri//card0//", "a/...", ".hidden",
    "a/.hidden/", "..a", "a.", "./a", "../a", "a/./b", "/..", "a/.//.",
];

#[test]
fn file_names_are_those_of_the_standard_library() {
    for path in PATHS {
        let expected = std::path::Path::new(path).file_name().map(|name| name.to_str().unwrap());
        let name = file_name(path.as_bytes()).map(|name| std::str::from_utf8(name).unwrap());
        assert_eq!(name, expected, "{path:?}");
        assert_eq!(is_absolute(path.as_bytes()), std::path::Path::new(path).is_absolute());
    }
}

#[test]
fn a_card_is_known_by_its_file_name() {
    assert!(is_card(b"/dev/dri/card0", 0));
    assert!(is_card(b"card12", 12));
    assert!(is_card(b"/dev/dri/card255/", 255));
    assert!(!is_card(b"/dev/dri/card1", 0));
    assert!(!is_card(b"/dev/dri/card01", 1));
    assert!(!is_card(b"/dev/dri/card10", 1));
    assert!(!is_card(b"/dev/dri/renderD128", 128));
    assert!(!is_card(b"/dev/dri/card0/x", 0));
    assert!(!is_card(b"/dev/dri/card0/..", 0));
    assert!(!is_card(b"/dev/dri/card\xff", 0));
    assert!(!is_card(b"", 0));
}

#[test]
fn paths_are_compared_as_by_the_standard_library() {
    for a in PATHS {
        for b in PATHS {
            let expected = std::path::Path::new(a) == std::path::Path::new(b);
            assert_eq!(is_same_path(a.as_bytes(), b.as_bytes()), expected, "{a:?} {b:?}");
        }
    }
}
