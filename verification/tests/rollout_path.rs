use std::path::{Component, Path, Prefix};

use codex_recall::order::Rank;
use codex_recall::rollout_path::{
    PathComponent, PathPrefix, RolloutPath, compare_paths, same_path,
};

const PATHS: [&str; 33] = [
    "", ".", "./a", "a/.", "a", "a/", "a//b", "a/./b", "a/b", "/", "/a", "/a/b.jsonl", "..",
    "a/../b", "a-b", "a/b-c", "/sessions/2025/01/03/rollout-1.jsonl",
    "/sessions/2025/01/03/rollout-10.jsonl", "/sessions/2025/01/03/rollout-2.jsonl", "é/日",
    "C:", "C:a", "c:\\a\\b", "C:/a/b", "a:b/c", "a\\b", "dir/a:b", "//", "//srv", "//srv/share/x",
    "\\\\srv\\share\\x", "\\\\?\\C:\\a", "\\\\.\\COM1",
];

fn rank(order: std::cmp::Ordering) -> Rank {
    match order {
        std::cmp::Ordering::Less => Rank::Less,
        std::cmp::Ordering::Equal => Rank::Equal,
        std::cmp::Ordering::Greater => Rank::Greater,
    }
}

#[test]
fn paths_are_ordered_as_the_standard_library_orders_them() {
    for a in PATHS {
        for b in PATHS {
            let left = RolloutPath::new(a);
            let right = RolloutPath::new(b);
            assert_eq!(
                compare_paths(&left, &right),
                rank(Path::new(a).cmp(Path::new(b))),
                "{a:?} {b:?}"
            );
            assert_eq!(same_path(&left, &right), Path::new(a) == Path::new(b));
        }
    }
}

fn shape(path: &RolloutPath) -> Vec<String> {
    path.components
        .iter()
        .map(|component| match component {
            PathComponent::Prefix(_) => "prefix".to_string(),
            PathComponent::RootDir => "/".to_string(),
            PathComponent::CurDir => ".".to_string(),
            PathComponent::ParentDir => "..".to_string(),
            PathComponent::Normal(name) => String::from_utf8(name.clone()).expect("UTF-8"),
        })
        .collect()
}

#[test]
fn plain_paths_fall_apart_at_slashes() {
    assert_eq!(shape(&RolloutPath::new("")), Vec::<String>::new());
    assert_eq!(shape(&RolloutPath::new("/a/./b//c/")), vec!["/", "a", "b", "c"]);
    assert_eq!(shape(&RolloutPath::new("./a/../é")), vec![".", "a", "..", "é"]);
    assert_eq!(shape(&RolloutPath::new("a/.")), vec!["a"]);
}

#[test]
fn paths_fall_apart_as_the_standard_library_says() {
    for text in PATHS {
        let expected: Vec<String> = Path::new(text)
            .components()
            .map(|component| match component {
                Component::Prefix(_) => "prefix".to_string(),
                Component::RootDir => "/".to_string(),
                Component::CurDir => ".".to_string(),
                Component::ParentDir => "..".to_string(),
                Component::Normal(name) => name.to_string_lossy().into_owned(),
            })
            .collect();
        assert_eq!(shape(&RolloutPath::new(text)), expected, "{text:?}");
    }
}

#[test]
fn prefixes_are_ordered_by_kind_and_parts() {
    let os = |text: &'static str| Path::new(text).as_os_str();
    let bytes = |text: &str| text.as_bytes().to_vec();
    let pairs = [
        (PathPrefix::Verbatim(bytes("a")), Prefix::Verbatim(os("a"))),
        (PathPrefix::Verbatim(bytes("ab")), Prefix::Verbatim(os("ab"))),
        (
            PathPrefix::VerbatimUnc(bytes("a"), bytes("c")),
            Prefix::VerbatimUNC(os("a"), os("c")),
        ),
        (PathPrefix::VerbatimDisk(b'C'), Prefix::VerbatimDisk(b'C')),
        (PathPrefix::DeviceNs(bytes("COM1")), Prefix::DeviceNS(os("COM1"))),
        (
            PathPrefix::Unc(bytes("a"), bytes("z")),
            Prefix::UNC(os("a"), os("z")),
        ),
        (
            PathPrefix::Unc(bytes("ab"), bytes("c")),
            Prefix::UNC(os("ab"), os("c")),
        ),
        (PathPrefix::Disk(b'C'), Prefix::Disk(b'C')),
        (PathPrefix::Disk(b'D'), Prefix::Disk(b'D')),
    ];
    let path = |prefix: &PathPrefix| RolloutPath {
        text: String::new(),
        components: vec![PathComponent::Prefix(prefix.clone())],
    };
    for (a, left) in &pairs {
        for (b, right) in &pairs {
            assert_eq!(compare_paths(&path(a), &path(b)), rank(left.cmp(right)));
            assert_eq!(same_path(&path(a), &path(b)), left == right);
        }
    }
}

#[test]
fn paths_are_resolved_as_the_standard_library_joins_them() {
    for root in PATHS {
        for text in PATHS {
            let path = RolloutPath::resolve(root, text);
            assert_eq!(path.text, Path::new(root).join(text).to_string_lossy());
        }
    }
}

#[test]
fn the_text_of_a_path_is_kept() {
    assert_eq!(RolloutPath::new("a//b").text, "a//b");
}

#[test]
fn relative_paths_are_resolved_below_the_root() {
    let path = RolloutPath::resolve("/home/sessions", "a.jsonl");
    assert!(same_path(&path, &RolloutPath::new("/home/sessions/a.jsonl")));
    let path = RolloutPath::resolve("/home/sessions/", "a.jsonl");
    assert_eq!(path.text, "/home/sessions/a.jsonl");
    let path = RolloutPath::resolve("", "a.jsonl");
    assert_eq!(path.text, "a.jsonl");
}

#[test]
fn absolute_paths_stay() {
    let path = RolloutPath::resolve("/home/sessions", "/elsewhere/a.jsonl");
    assert_eq!(path.text, "/elsewhere/a.jsonl");
}

#[test]
fn copies_are_the_same() {
    for text in PATHS {
        let path = RolloutPath::new(text);
        let copy = path.clone();
        assert!(same_path(&path, &copy));
        assert_eq!(copy.text, text);
    }
}
