use std::path::{Path, PathBuf};

use macprot2fans::order::{bytes_sort_before, same_bytes, sorts_before};
use macprot2fans::path::{stem_of, SysPath};

const PATHS: [&str; 19] = [
    "/", "/a", "/a/b", "/a//b/", "/a/./b", "/a/../b", "/a/..", "/sys/class/hwmon/hwmon10",
    "/sys/class/hwmon/hwmon2", "/sys/class/hwmon", "/a/b.c", "/a-b/c", "/a/b/c", "/é/x",
    "/a/-x", "/a/..x", "/..", "/a/../..", "/a/.x",
];

fn sys(s: &str) -> SysPath {
    SysPath::from_bytes(&s.as_bytes().to_vec())
}

fn std_path(path: &SysPath) -> PathBuf {
    PathBuf::from(String::from_utf8(path.to_bytes()).unwrap())
}

#[test]
fn paths_have_the_components_of_the_standard_library() {
    for s in PATHS {
        let expected: PathBuf = Path::new(s).components().collect();
        assert_eq!(std_path(&sys(s)), expected);
        assert!(sys(s).same(&SysPath::from_bytes(&sys(s).to_bytes())));
    }
}

#[test]
fn file_names_are_those_of_the_standard_library() {
    for s in PATHS {
        let path = sys(s);
        let name = path.file_name().map(|n| n.as_slice());
        assert_eq!(name, Path::new(s).file_name().map(|n| n.to_str().unwrap().as_bytes()), "{s}");
        for new in ["x", "fan1_min", "..", "", ".", "x/y", "x//./y/", "/", "/abs/x", "x/..", "../x"] {
            let renamed = path.with_file_name(&new.as_bytes().to_vec());
            let expected: PathBuf = Path::new(s).with_file_name(new).components().collect();
            assert_eq!(std_path(&renamed), expected, "{s} {new}");
        }
    }
}

#[test]
fn paths_sort_as_in_the_standard_library() {
    for a in PATHS {
        for b in PATHS {
            assert_eq!(sys(a).sorts_before(&sys(b)), Path::new(a) < Path::new(b), "{a} {b}");
            assert_eq!(sys(a).same(&sys(b)), Path::new(a) == Path::new(b), "{a} {b}");
        }
    }
}

#[test]
fn the_parent_directory_sorts_first() {
    assert!(sys("/a/..").sorts_before(&sys("/a/-x")));
    assert!(!sys("/a/-x").sorts_before(&sys("/a/..")));
    assert!(sys("/a/-x").sorts_before(&sys("/a/.x")));
    assert!(!sys("/a/..").sorts_before(&sys("/a/..")));
}

#[test]
fn a_renamed_path_has_the_name() {
    let renamed = sys("/d/fan1").with_file_name(&b"fan2".to_vec());
    assert_eq!(renamed.file_name().map(|n| n.as_slice()), Some(b"fan2".as_slice()));
    assert!(renamed.same(&sys("/d/fan2")));
    let parent = sys("/d/fan1").with_file_name(&b"..".to_vec());
    assert_eq!(parent.file_name(), None);
}

#[test]
fn copies_are_the_same() {
    assert!(sys("/a/b").copy().same(&sys("/a/b")));
    assert!(!sys("/a/b").copy().same(&sys("/a/c")));
}

#[test]
fn the_stem_of_an_input_file() {
    assert_eq!(stem_of(&sys("/x/fan1_input")), Some(b"fan1".to_vec()));
    assert_eq!(stem_of(&sys("/x/_input")), Some(b"".to_vec()));
    assert_eq!(stem_of(&sys("/x/fan1_min")), None);
    assert_eq!(stem_of(&sys("/")), None);
    let mut bytes = b"/x/".to_vec();
    bytes.push(0xff);
    bytes.extend_from_slice(b"_input");
    assert_eq!(stem_of(&SysPath::from_bytes(&bytes)), None);
}

#[test]
fn texts_and_bytes_sort_as_in_the_standard_library() {
    let words = ["", "a", "b", "ab", "fan1", "fan10", "fan2", "é", "\u{ffff}", "\u{10000}"];
    for a in words {
        for b in words {
            assert_eq!(sorts_before(a, b), a < b, "{a:?} {b:?}");
            let (x, y) = (a.as_bytes().to_vec(), b.as_bytes().to_vec());
            assert_eq!(bytes_sort_before(&x, &y), x < y);
            assert_eq!(same_bytes(&x, &y), x == y);
        }
    }
}
